//! Installed CLAP plugins as the scanner reports them, and the choice of
//! one of them by identifier or by name.
use vstd::prelude::*;
use crate::text::{ascii_lower_seq, chars_contains, chars_eq_str, chars_of, contains_seq, to_ascii_lower};

verus! {

/// A CLAP plugin found on this machine.
#[derive(Debug, Clone, PartialEq, Eq)]
pub struct PluginInfo {
    pub id: String,
    pub name: String,
    pub vendor: String,
    pub version: String,
    /// The path of the bundle that holds it.
    pub bundle_path: String,
}

/// Why no plugin was chosen.
#[derive(Debug, Clone, PartialEq, Eq)]
pub enum PluginLookupError {
    /// No plugin is installed at all.
    NoPlugins,
    /// No plugin has the identifier, nor a name that contains the text.
    NotFound(String),
    /// No plugin has exactly the identifier.
    UnknownId(String),
}

/// The mathematical value of a [`PluginLookupError`].
pub enum PluginLookupErrorView {
    NoPlugins,
    NotFound(Seq<char>),
    UnknownId(Seq<char>),
}

impl View for PluginLookupError {
    type V = PluginLookupErrorView;

    open spec fn view(&self) -> PluginLookupErrorView {
        match self {
            PluginLookupError::NoPlugins => PluginLookupErrorView::NoPlugins,
            PluginLookupError::NotFound(s) => PluginLookupErrorView::NotFound(s@),
            PluginLookupError::UnknownId(s) => PluginLookupErrorView::UnknownId(s@),
        }
    }
}

/// The human-readable message of an error.
pub open spec fn lookup_message(e: PluginLookupErrorView) -> Seq<char> {
    match e {
        PluginLookupErrorView::NoPlugins => "CLAP プラグインが見つかりません"@,
        PluginLookupErrorView::NotFound(s) => "プラグイン '"@ + s + "' が見つかりません"@,
        PluginLookupErrorView::UnknownId(s) => "プラグイン '"@ + s + "' が見つかりません。`scan` で ID を確認してください"@,
    }
}

fn quoted(before: &str, s: &String, after: &str) -> (r: String)
    ensures
        r@ == before@ + s@ + after@,
{
    let mut r = String::from_str(before);
    r.append(s.as_str());
    r.append(after);
    r
}

impl PluginLookupError {
    /// The human-readable message of the error.
    pub fn message(&self) -> (r: String)
        ensures
            r@ == lookup_message(self@),
    {
        match self {
            PluginLookupError::NoPlugins => String::from_str("CLAP プラグインが見つかりません"),
            PluginLookupError::NotFound(s) => quoted("プラグイン '", s, "' が見つかりません"),
            PluginLookupError::UnknownId(s) => quoted(
                "プラグイン '",
                s,
                "' が見つかりません。`scan` で ID を確認してください",
            ),
        }
    }
}

/// Whether a plugin's identifier is exactly the text.
pub open spec fn has_id(p: PluginInfo, id: Seq<char>) -> bool {
    p.id@ == id
}

/// Whether a plugin's name contains the text, ignoring ASCII case.
pub open spec fn name_matches(p: PluginInfo, needle: Seq<char>) -> bool {
    contains_seq(ascii_lower_seq(p.name@), ascii_lower_seq(needle))
}

/// `i` is the first position of `ps` whose plugin has the identifier.
pub open spec fn first_with_id(ps: Seq<PluginInfo>, id: Seq<char>, i: int) -> bool {
    &&& 0 <= i < ps.len()
    &&& has_id(ps[i], id)
    &&& forall|j: int| 0 <= j < i ==> !has_id(#[trigger] ps[j], id)
}

/// `i` is the first position of `ps` whose plugin's name contains the text.
pub open spec fn first_with_name(ps: Seq<PluginInfo>, needle: Seq<char>, i: int) -> bool {
    &&& 0 <= i < ps.len()
    &&& name_matches(ps[i], needle)
    &&& forall|j: int| 0 <= j < i ==> !name_matches(#[trigger] ps[j], needle)
}

/// The position of the first plugin with exactly the identifier.
fn position_of_id(plugins: &[PluginInfo], id: &str) -> (r: Option<usize>)
    ensures
        match r {
            Some(i) => first_with_id(plugins@, id@, i as int),
            None => forall|j: int| 0 <= j < plugins@.len() ==> !has_id(#[trigger] plugins@[j], id@),
        },
{
    let mut i: usize = 0;
    while i < plugins.len()
        invariant
            i <= plugins@.len(),
            forall|j: int| 0 <= j < i ==> !has_id(#[trigger] plugins@[j], id@),
        decreases plugins@.len() - i,
    {
        let cs = chars_of(plugins[i].id.as_str());
        if chars_eq_str(cs.as_slice(), id) {
            return Some(i);
        }
        i = i + 1;
    }
    None
}

/// The position of the first plugin whose name contains the text, ignoring ASCII case.
fn position_of_name(plugins: &[PluginInfo], needle: &str) -> (r: Option<usize>)
    ensures
        match r {
            Some(i) => first_with_name(plugins@, needle@, i as int),
            None => forall|j: int| 0 <= j < plugins@.len() ==> !name_matches(#[trigger] plugins@[j], needle@),
        },
{
    let lower_needle = to_ascii_lower(chars_of(needle).as_slice());
    let mut i: usize = 0;
    while i < plugins.len()
        invariant
            i <= plugins@.len(),
            lower_needle@ == ascii_lower_seq(needle@),
            forall|j: int| 0 <= j < i ==> !name_matches(#[trigger] plugins@[j], needle@),
        decreases plugins@.len() - i,
    {
        let lower_name = to_ascii_lower(chars_of(plugins[i].name.as_str()).as_slice());
        if chars_contains(lower_name.as_slice(), lower_needle.as_slice()) {
            return Some(i);
        }
        i = i + 1;
    }
    None
}

/// The plugin with exactly the identifier (the first, if several have it).
pub fn find_plugin<'a>(plugins: &'a [PluginInfo], id: &str) -> (r: Result<&'a PluginInfo, PluginLookupError>)
    ensures
        match r {
            Ok(p) => exists|i: int| first_with_id(plugins@, id@, i) && *p == plugins@[i],
            Err(e) => e@ == PluginLookupErrorView::UnknownId(id@)
                && forall|j: int| 0 <= j < plugins@.len() ==> !has_id(#[trigger] plugins@[j], id@),
        },
{
    match position_of_id(plugins, id) {
        Some(i) => Ok(&plugins[i]),
        None => Err(PluginLookupError::UnknownId(String::from_str(id))),
    }
}

/// `p` is the plugin a user means by `needle`: the first with exactly that
/// identifier, or, when none has it, the first whose name contains it.
pub open spec fn search_found(ps: Seq<PluginInfo>, needle: Seq<char>, p: PluginInfo) -> bool {
    exists|i: int| {
        &&& #[trigger] ps[i] == p
        &&& (first_with_id(ps, needle, i) || {
            &&& first_with_name(ps, needle, i)
            &&& forall|j: int| 0 <= j < ps.len() ==> !has_id(#[trigger] ps[j], needle)
        })
    }
}

/// `e` is the error of a search for `needle` that found nothing: no plugin
/// has the identifier nor a name that contains it.
pub open spec fn search_failed(ps: Seq<PluginInfo>, needle: Seq<char>, e: PluginLookupErrorView) -> bool {
    &&& ps.len() == 0 ==> e == PluginLookupErrorView::NoPlugins
    &&& ps.len() > 0 ==> e == PluginLookupErrorView::NotFound(needle)
    &&& forall|j: int| 0 <= j < ps.len() ==> !has_id(#[trigger] ps[j], needle)
    &&& forall|j: int| 0 <= j < ps.len() ==> !name_matches(#[trigger] ps[j], needle)
}

/// The plugin a user means by `needle`: the first with exactly that
/// identifier, or else the first whose name contains it, ignoring ASCII case.
pub fn search_plugin<'a>(plugins: &'a [PluginInfo], needle: &str) -> (r: Result<&'a PluginInfo, PluginLookupError>)
    ensures
        match r {
            Ok(p) => search_found(plugins@, needle@, *p),
            Err(e) => search_failed(plugins@, needle@, e@),
        },
{
    if plugins.len() == 0 {
        return Err(PluginLookupError::NoPlugins);
    }
    match position_of_id(plugins, needle) {
        Some(i) => Ok(&plugins[i]),
        None => match position_of_name(plugins, needle) {
            Some(i) => Ok(&plugins[i]),
            None => Err(PluginLookupError::NotFound(String::from_str(needle))),
        },
    }
}

} // verus!
