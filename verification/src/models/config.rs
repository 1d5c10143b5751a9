//! Settings and tags.

use vstd::prelude::*;

verus! {

/// The field by which a listing of accounts is ordered.
#[derive(Clone, Copy, Debug, PartialEq, Eq, Structural)]
pub enum SortField {
    CreatedAt,
    Email,
    Status,
    /// The order that the user arranged by hand.
    Manual,
}

/// The direction of an ordering.
#[derive(Clone, Copy, Debug, PartialEq, Eq, Structural)]
pub enum SortDirection {
    Asc,
    Desc,
}

/// How a listing of accounts is ordered.
#[derive(Clone, Copy, Debug, PartialEq, Eq, Structural)]
pub struct SortConfig {
    pub field: SortField,
    pub direction: SortDirection,
}

/// The configuration of the whole program.
#[derive(Debug, PartialEq, Eq)]
pub struct Settings {
    pub proxy_enabled: bool,
    pub proxy_url: Option<String>,
    pub use_lightweight_api: bool,
    pub sort_config: SortConfig,
}

/// The settings as plain values.
pub struct SettingsView {
    pub proxy_enabled: bool,
    pub proxy_url: Option<Seq<char>>,
    pub use_lightweight_api: bool,
    pub sort_config: SortConfig,
}

impl View for Settings {
    type V = SettingsView;

    open spec fn view(&self) -> SettingsView {
        SettingsView {
            proxy_enabled: self.proxy_enabled,
            proxy_url: self.proxy_url.deep_view(),
            use_lightweight_api: self.use_lightweight_api,
            sort_config: self.sort_config,
        }
    }
}

impl Clone for Settings {
    fn clone(&self) -> (copy: Self)
        ensures
            copy@ == self@,
    {
        Settings {
            proxy_enabled: self.proxy_enabled,
            proxy_url: self.proxy_url.clone(),
            use_lightweight_api: self.use_lightweight_api,
            sort_config: self.sort_config,
        }
    }
}

impl Settings {
    /// The settings of a new store: no proxy, the full API, accounts in the
    /// order of their creation.
    pub open spec fn default_view() -> SettingsView {
        SettingsView {
            proxy_enabled: false,
            proxy_url: None,
            use_lightweight_api: false,
            sort_config: SortConfig { field: SortField::CreatedAt, direction: SortDirection::Asc },
        }
    }
}

impl Default for Settings {
    fn default() -> (settings: Self)
        ensures
            settings@ == Settings::default_view(),
    {
        Settings {
            proxy_enabled: false,
            proxy_url: None,
            use_lightweight_api: false,
            sort_config: SortConfig { field: SortField::CreatedAt, direction: SortDirection::Asc },
        }
    }
}

/// A label that accounts can carry.
#[derive(Debug, PartialEq, Eq)]
pub struct GlobalTag {
    pub name: String,
    pub color: String,
}

/// A tag as plain values.
pub struct GlobalTagView {
    pub name: Seq<char>,
    pub color: Seq<char>,
}

impl View for GlobalTag {
    type V = GlobalTagView;

    open spec fn view(&self) -> GlobalTagView {
        GlobalTagView { name: self.name@, color: self.color@ }
    }
}

impl DeepView for GlobalTag {
    type V = GlobalTagView;

    open spec fn deep_view(&self) -> GlobalTagView {
        self.view()
    }
}

impl Clone for GlobalTag {
    fn clone(&self) -> (copy: Self)
        ensures
            copy@ == self@,
    {
        GlobalTag { name: self.name.clone(), color: self.color.clone() }
    }
}

/// A copy of `tags`.
pub fn clone_tags(tags: &Vec<GlobalTag>) -> (copy: Vec<GlobalTag>)
    ensures
        copy.deep_view() == tags.deep_view(),
{
    let mut copy: Vec<GlobalTag> = Vec::new();
    let mut i: usize = 0;
    while i < tags.len()
        invariant
            i <= tags.len(),
            copy.len() == i,
            forall|k: int| 0 <= k < i ==> copy@[k]@ == tags@[k]@,
        decreases tags.len() - i,
    {
        copy.push(tags[i].clone());
        i = i + 1;
    }
    assert(copy.deep_view() =~= tags.deep_view());
    copy
}

/// A copy of `names`.
pub fn clone_names(names: &Vec<String>) -> (copy: Vec<String>)
    ensures
        copy.deep_view() == names.deep_view(),
{
    let copy = names.clone();
    assert(copy.deep_view() =~= names.deep_view());
    copy
}

} // verus!
