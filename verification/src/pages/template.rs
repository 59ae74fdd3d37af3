//! What every page has around its content: icons, the navigation bar and the
//! list of devices to choose from.

use crate::http::request::{segments_spec, BackendData, ServerRequest};
use crate::registry::Address;
use crate::text::piece_views;
use vstd::prelude::*;

verus! {

/// An icon of the icon sheet, drawn in a square of `size` pixels.
#[derive(Clone, Copy, Debug, PartialEq, Eq)]
pub struct Icon {
    pub name: &'static str,
    pub size: u8,
}

/// The size of an icon that is given none.
pub const DEFAULT_ICON_SIZE: u8 = 24;

impl Icon {
    /// The icon called `name`, in the default size.
    pub fn new(name: &'static str) -> (icon: Icon)
        ensures
            icon.name == name,
            icon.size == DEFAULT_ICON_SIZE,
    {
        Icon { name, size: DEFAULT_ICON_SIZE }
    }

    /// The same icon in another size.
    pub fn size(self, size: u8) -> (icon: Icon)
        ensures
            icon.name == self.name,
            icon.size == size,
    {
        Icon { name: self.name, size }
    }

    /// Where the icon is found in the icon sheet.
    pub fn href(&self) -> (href: String)
        ensures
            href@ == "/static/icons.svg#"@ + self.name@,
    {
        "/static/icons.svg#".to_owned().concat(self.name)
    }
}

/// The pages that the navigation bar leads to, in the order in which it
/// shows them.
#[derive(Clone, Copy, Debug, PartialEq, Eq, Structural)]
pub enum Page {
    System,
    Process,
    Software,
    Service,
    Management,
    Terminal,
    Browser,
}

/// The first segment of the path under which a page is served.
pub open spec fn slug_bytes(page: Page) -> Seq<u8> {
    match page {
        Page::System => seq![0x73u8, 0x79u8, 0x73u8, 0x74u8, 0x65u8, 0x6Du8],
        Page::Process => seq![0x70u8, 0x72u8, 0x6Fu8, 0x63u8, 0x65u8, 0x73u8, 0x73u8],
        Page::Software => seq![0x73u8, 0x6Fu8, 0x66u8, 0x74u8, 0x77u8, 0x61u8, 0x72u8, 0x65u8],
        Page::Service => seq![0x73u8, 0x65u8, 0x72u8, 0x76u8, 0x69u8, 0x63u8, 0x65u8],
        Page::Management => seq![
            0x6Du8,
            0x61u8,
            0x6Eu8,
            0x61u8,
            0x67u8,
            0x65u8,
            0x6Du8,
            0x65u8,
            0x6Eu8,
            0x74u8,
        ],
        Page::Terminal => seq![0x74u8, 0x65u8, 0x72u8, 0x6Du8, 0x69u8, 0x6Eu8, 0x61u8, 0x6Cu8],
        Page::Browser => seq![0x62u8, 0x72u8, 0x6Fu8, 0x77u8, 0x73u8, 0x65u8, 0x72u8],
    }
}

/// The pages of the navigation bar, in order.
pub open spec fn all_pages() -> Seq<Page> {
    seq![
        Page::System,
        Page::Process,
        Page::Software,
        Page::Service,
        Page::Management,
        Page::Terminal,
        Page::Browser,
    ]
}

/// The page that a path with these segments is on: the system page for a
/// path with no segment, the page whose slug the first segment is, and none
/// where the first segment is no page's slug.
pub open spec fn current_page_spec(segments: Seq<Seq<u8>>) -> Option<Page> {
    if segments.len() == 0 {
        Some(Page::System)
    } else if segments[0] == slug_bytes(Page::System) {
        Some(Page::System)
    } else if segments[0] == slug_bytes(Page::Process) {
        Some(Page::Process)
    } else if segments[0] == slug_bytes(Page::Software) {
        Some(Page::Software)
    } else if segments[0] == slug_bytes(Page::Service) {
        Some(Page::Service)
    } else if segments[0] == slug_bytes(Page::Management) {
        Some(Page::Management)
    } else if segments[0] == slug_bytes(Page::Terminal) {
        Some(Page::Terminal)
    } else if segments[0] == slug_bytes(Page::Browser) {
        Some(Page::Browser)
    } else {
        None
    }
}

impl Page {
    /// The first segment of the path under which the page is served.
    pub fn slug(self) -> (s: &'static str)
        ensures
            s@ == (match self {
                Page::System => "system"@,
                Page::Process => "process"@,
                Page::Software => "software"@,
                Page::Service => "service"@,
                Page::Management => "management"@,
                Page::Terminal => "terminal"@,
                Page::Browser => "browser"@,
            }),
    {
        match self {
            Page::System => "system",
            Page::Process => "process",
            Page::Software => "software",
            Page::Service => "service",
            Page::Management => "management",
            Page::Terminal => "terminal",
            Page::Browser => "browser",
        }
    }

    /// The path that the page's entry in the navigation bar leads to.
    pub fn href(self) -> (s: &'static str)
        ensures
            s@ == (match self {
                Page::System => "/system"@,
                Page::Process => "/process"@,
                Page::Software => "/software"@,
                Page::Service => "/service"@,
                Page::Management => "/management"@,
                Page::Terminal => "/terminal"@,
                Page::Browser => "/browser"@,
            }),
    {
        match self {
            Page::System => "/system",
            Page::Process => "/process",
            Page::Software => "/software",
            Page::Service => "/service",
            Page::Management => "/management",
            Page::Terminal => "/terminal",
            Page::Browser => "/browser",
        }
    }

    /// The icon of the page's entry in the navigation bar.
    pub fn icon(self) -> (icon: Icon)
        ensures
            icon.size == DEFAULT_ICON_SIZE,
            icon.name@ == (match self {
                Page::System => "fa6-solid-gauge"@,
                Page::Process => "fa6-solid-microchip"@,
                Page::Software => "fa6-solid-database"@,
                Page::Service => "fa6-solid-list"@,
                Page::Management => "fa6-solid-user"@,
                Page::Terminal => "fa6-solid-terminal"@,
                Page::Browser => "fa6-solid-folder"@,
            }),
    {
        Icon::new(
            match self {
                Page::System => "fa6-solid-gauge",
                Page::Process => "fa6-solid-microchip",
                Page::Software => "fa6-solid-database",
                Page::Service => "fa6-solid-list",
                Page::Management => "fa6-solid-user",
                Page::Terminal => "fa6-solid-terminal",
                Page::Browser => "fa6-solid-folder",
            },
        )
    }

    /// The text of the page's entry in the navigation bar.
    pub fn label(self) -> (s: &'static str)
        ensures
            s@ == (match self {
                Page::System => "System"@,
                Page::Process => "Processes"@,
                Page::Software => "Software"@,
                Page::Service => "Services"@,
                Page::Management => "Management"@,
                Page::Terminal => "Terminal"@,
                Page::Browser => "File Browser"@,
            }),
    {
        match self {
            Page::System => "System",
            Page::Process => "Processes",
            Page::Software => "Software",
            Page::Service => "Services",
            Page::Management => "Management",
            Page::Terminal => "Terminal",
            Page::Browser => "File Browser",
        }
    }

    /// The key under which the text of the page's entry is looked up in other languages.
    pub fn i18n_key(self) -> (s: &'static str)
        ensures
            s@ == (match self {
                Page::System => "nav_system"@,
                Page::Process => "nav_processes"@,
                Page::Software => "nav_software"@,
                Page::Service => "nav_services"@,
                Page::Management => "nav_management"@,
                Page::Terminal => "nav_terminal"@,
                Page::Browser => "nav_file_browser"@,
            }),
    {
        match self {
            Page::System => "nav_system",
            Page::Process => "nav_processes",
            Page::Software => "nav_software",
            Page::Service => "nav_services",
            Page::Management => "nav_management",
            Page::Terminal => "nav_terminal",
            Page::Browser => "nav_file_browser",
        }
    }
}

fn is_slug(segment: &Vec<u8>, page: Page) -> (b: bool)
    ensures
        b == (segment@ == slug_bytes(page)),
{
    let slug = page.slug();
    proof {
        reveal_strlit("system");
        reveal_strlit("process");
        reveal_strlit("software");
        reveal_strlit("service");
        reveal_strlit("management");
        reveal_strlit("terminal");
        reveal_strlit("browser");
    }
    let n = slug.unicode_len();
    if segment.len() != n {
        return false;
    }
    let mut i: usize = 0;
    while i < n
        invariant
            i <= n,
            n == slug@.len(),
            n == segment@.len(),
            slug@.len() == slug_bytes(page).len(),
            forall|j: int| 0 <= j < slug@.len() ==> (#[trigger] slug@[j]) as u32 == slug_bytes(page)[j],
            forall|j: int| 0 <= j < i ==> segment@[j] == slug_bytes(page)[j],
        decreases n - i,
    {
        let c = slug.get_char(i);
        if segment[i] as u32 != c as u32 {
            return false;
        }
        i += 1;
    }
    assert(segment@ =~= slug_bytes(page));
    true
}

/// The page that a call is on.
pub fn current_page<B>(req: &ServerRequest<B>) -> (page: Option<Page>)
    ensures
        page == current_page_spec(segments_spec(req@.path)),
{
    let segments = req.path_segments();
    if segments.len() == 0 {
        return Some(Page::System);
    }
    assert(piece_views(segments@)[0] == segments@[0]@);
    let first = &segments[0];
    if is_slug(first, Page::System) {
        Some(Page::System)
    } else if is_slug(first, Page::Process) {
        Some(Page::Process)
    } else if is_slug(first, Page::Software) {
        Some(Page::Software)
    } else if is_slug(first, Page::Service) {
        Some(Page::Service)
    } else if is_slug(first, Page::Management) {
        Some(Page::Management)
    } else if is_slug(first, Page::Terminal) {
        Some(Page::Terminal)
    } else if is_slug(first, Page::Browser) {
        Some(Page::Browser)
    } else {
        None
    }
}

/// One entry of the navigation bar.
#[derive(Clone, Copy, Debug, PartialEq, Eq)]
pub struct NavEntry {
    pub page: Page,
    /// Is this the page that the call is on?
    pub active: bool,
}

/// The entries of the navigation bar for a call: one for each page, in
/// order, the one for the page that the call is on marked active.
pub fn nav<B>(req: &ServerRequest<B>) -> (entries: Vec<NavEntry>)
    ensures
        entries@.len() == all_pages().len(),
        forall|i: int|
            0 <= i < entries@.len() ==> (#[trigger] entries@[i]).page == all_pages()[i]
                && entries@[i].active == (current_page_spec(segments_spec(req@.path)) == Some(
                all_pages()[i],
            )),
{
    let current = current_page(req);
    let mut entries: Vec<NavEntry> = Vec::new();
    entries.push(NavEntry { page: Page::System, active: current == Some(Page::System) });
    entries.push(NavEntry { page: Page::Process, active: current == Some(Page::Process) });
    entries.push(NavEntry { page: Page::Software, active: current == Some(Page::Software) });
    entries.push(NavEntry { page: Page::Service, active: current == Some(Page::Service) });
    entries.push(NavEntry { page: Page::Management, active: current == Some(Page::Management) });
    entries.push(NavEntry { page: Page::Terminal, active: current == Some(Page::Terminal) });
    entries.push(NavEntry { page: Page::Browser, active: current == Some(Page::Browser) });
    entries
}

/// One device of the list to choose from.
pub struct BackendOption {
    pub address: Address,
    pub nickname: String,
    /// Is this the device that serves the call?
    pub selected: bool,
}

/// The list of devices to choose from, in the order of the directory, the
/// device that serves the call marked selected.
pub fn backend_options<H>(data: &BackendData<H>) -> (options: Vec<BackendOption>)
    ensures
        options@.len() == data.backend_list@.len(),
        forall|i: int|
            0 <= i < options@.len() ==> (#[trigger] options@[i]).address == data.backend_list@[i].0
                && options@[i].nickname@ == data.backend_list@[i].1@ && options@[i].selected == (
            data.backend_list@[i].0 == data.current_backend.addr),
{
    let mut options: Vec<BackendOption> = Vec::new();
    let mut i: usize = 0;
    while i < data.backend_list.len()
        invariant
            i <= data.backend_list@.len(),
            options@.len() == i,
            forall|k: int|
                0 <= k < i ==> (#[trigger] options@[k]).address == data.backend_list@[k].0
                    && options@[k].nickname@ == data.backend_list@[k].1@ && options@[k].selected == (
                data.backend_list@[k].0 == data.current_backend.addr),
        decreases data.backend_list@.len() - i,
    {
        let address = data.backend_list[i].0;
        options.push(
            BackendOption {
                address,
                nickname: data.backend_list[i].1.clone(),
                selected: address == data.current_backend.addr,
            },
        );
        i += 1;
    }
    options
}

} // verus!
