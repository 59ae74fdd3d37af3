//! The software page.

use crate::message::{CommandAction, SoftwareInfo};
use crate::text::{decimal, decimal_spec};
use vstd::prelude::*;

verus! {

/// What is to be done with the chosen packages.
#[derive(Clone, Copy, Debug, PartialEq, Eq, Structural)]
pub enum SoftwareAction {
    Install,
    Uninstall,
}

/// The program on the device that installs and removes packages.
pub open spec fn installer() -> Seq<char> {
    "/boot/dietpi/dietpi-software"@
}

/// The word for an action on the installer's command line.
pub open spec fn action_word(action: SoftwareAction) -> Seq<char> {
    match action {
        SoftwareAction::Install => "install"@,
        SoftwareAction::Uninstall => "uninstall"@,
    }
}

/// The arguments of the installer: the word for the action, then the number
/// of each package in decimal.
pub open spec fn installer_args(action: SoftwareAction, ids: Seq<u16>) -> Seq<Seq<char>> {
    seq![action_word(action)] + Seq::new(ids.len(), |i: int| decimal_spec(ids[i] as nat))
}

/// The views of a list of strings, in order.
pub open spec fn string_views(strings: Seq<String>) -> Seq<Seq<char>> {
    Seq::new(strings.len(), |i: int| strings[i]@)
}

impl SoftwareAction {
    /// The word for the action, on the installer's command line and in the
    /// form that the page sends.
    pub fn word(self) -> (s: &'static str)
        ensures
            s@ == action_word(self),
    {
        match self {
            SoftwareAction::Install => "install",
            SoftwareAction::Uninstall => "uninstall",
        }
    }

    /// The text of the button that starts the action.
    pub fn label(self) -> (s: &'static str)
        ensures
            self == SoftwareAction::Install ==> s@ == "Install"@,
            self == SoftwareAction::Uninstall ==> s@ == "Uninstall"@,
    {
        match self {
            SoftwareAction::Install => "Install",
            SoftwareAction::Uninstall => "Uninstall",
        }
    }

    /// The number of the tab that lists the packages the action is open to:
    /// the packages that are not installed come first.
    pub fn tab(self) -> (idx: u8)
        ensures
            self == SoftwareAction::Install ==> idx == 0,
            self == SoftwareAction::Uninstall ==> idx == 1,
    {
        match self {
            SoftwareAction::Install => 0,
            SoftwareAction::Uninstall => 1,
        }
    }
}

/// The command that does `action` to the packages numbered `ids`.
pub fn form(action: SoftwareAction, ids: &Vec<u16>) -> (msg: CommandAction)
    ensures
        msg.cmd@ == installer(),
        string_views(msg.args@) == installer_args(action, ids@),
{
    let mut args: Vec<String> = Vec::new();
    args.push(action.word().to_owned());
    let mut i: usize = 0;
    while i < ids.len()
        invariant
            i <= ids@.len(),
            args@.len() == i + 1,
            args@[0]@ == action_word(action),
            forall|j: int| 1 <= j <= i ==> (#[trigger] args@[j])@ == decimal_spec(ids@[j - 1] as nat),
        decreases ids@.len() - i,
    {
        args.push(decimal(ids[i] as u64));
        i += 1;
    }
    assert(string_views(args@) =~= installer_args(action, ids@));
    CommandAction { cmd: "/boot/dietpi/dietpi-software".to_owned(), args }
}

/// Is the documentation of a package a link, to be shown as one?
pub open spec fn is_link_spec(docs: Seq<char>) -> bool {
    docs.len() >= 4 && docs.subrange(0, 4) == "http"@
}

/// Is the documentation of this package a link?
pub fn is_link(item: &SoftwareInfo) -> (b: bool)
    ensures
        b == is_link_spec(item.docs@),
{
    proof {
        reveal_strlit("http");
    }
    let docs = item.docs.as_str();
    let n = docs.unicode_len();
    if n < 4 {
        return false;
    }
    let b = docs.get_char(0) == 'h' && docs.get_char(1) == 't' && docs.get_char(2) == 't'
        && docs.get_char(3) == 'p';
    proof {
        let head = item.docs@.subrange(0, 4);
        if b {
            assert(head =~= "http"@);
        } else {
            assert(head[0] == item.docs@[0] && head[1] == item.docs@[1] && head[2] == item.docs@[2]
                && head[3] == item.docs@[3]);
        }
    }
    b
}

} // verus!
