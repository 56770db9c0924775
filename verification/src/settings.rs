//! Stored settings: the script that hands them to the main window before its first
//! paint, and what they set at startup.

use crate::json::{
    bool_in, is_json, json_of, number_in, parses, read_bool, read_number, write_string,
};
use crate::pieces::{join, join_with, views};
use crate::profiles::opt_view;
use crate::search::{law_occurs, occurs, parts_round};
use crate::text::same;
use vstd::prelude::*;
use vstd::string::*;

verus! {

/// A stored setting: its key, and its value as JSON.
#[derive(Debug, PartialEq, Eq)]
pub struct Setting {
    pub key: String,
    pub value: String,
}

/// A setting as it may go into the script.
#[derive(Debug, PartialEq, Eq)]
pub struct ScriptEntry {
    /// The key as a JSON string.
    pub key_json: String,
    pub value: String,
    /// Whether the value is JSON.
    pub valid: bool,
}

/// A setting as it may go into the script.
pub struct EntryView {
    pub key_json: Seq<char>,
    pub value: Seq<char>,
    pub valid: bool,
}

impl View for ScriptEntry {
    type V = EntryView;

    open spec fn view(&self) -> EntryView {
        EntryView { key_json: self.key_json@, value: self.value@, valid: self.valid }
    }
}

/// Settings as they may go into the script.
pub open spec fn entry_views(entries: Seq<ScriptEntry>) -> Seq<EntryView> {
    entries.map_values(|e: ScriptEntry| e@)
}

/// The members of the object literal: `key:value` for each setting whose value is
/// JSON. The others are left out, so that one bad row cannot break the whole script.
pub open spec fn members(entries: Seq<EntryView>) -> Seq<Seq<char>>
    decreases entries.len(),
{
    if entries.len() == 0 {
        seq![]
    } else {
        let before = members(entries.drop_last());
        if entries.last().valid {
            before.push(entries.last().key_json + ":"@ + entries.last().value)
        } else {
            before
        }
    }
}

/// The object literal.
pub open spec fn object(entries: Seq<EntryView>) -> Seq<char> {
    "{"@ + join(members(entries), ","@) + "}"@
}

/// The script: it exposes the settings and the view to show, and sets the theme on the
/// document.
pub open spec fn script(entries: Seq<EntryView>, view_json: Seq<char>) -> Seq<char> {
    "(function(){try{var s="@ + object(entries)
        + ";window.__GHOSTFTP_SETTINGS__=s;window.__GHOSTFTP_QA_VIEW__="@ + view_json
        + ";var el=document.documentElement;if(el&&typeof s.appTheme==='string'){el.setAttribute('data-theme',s.appTheme);}}catch(e){}})();"@
}

fn write_object(entries: &Vec<ScriptEntry>) -> (r: String)
    ensures
        r@ == object(entry_views(entries@)),
{
    let mut parts: Vec<String> = Vec::new();
    let ghost all = entry_views(entries@);
    let mut i: usize = 0;
    assert(views(parts@) == Seq::<Seq<char>>::empty());
    while i < entries.len()
        invariant
            i <= entries.len(),
            all == entry_views(entries@),
            views(parts@) == members(all.take(i as int)),
        decreases entries.len() - i,
    {
        let entry = &entries[i];
        let ghost before = views(parts@);
        proof {
            assert(all.take(i + 1).drop_last() == all.take(i as int));
            assert(all.take(i + 1).last() == entry@);
        }
        if entry.valid {
            let mut part = entry.key_json.clone();
            part.append(":");
            part.append(entry.value.as_str());
            parts.push(part);
            assert(views(parts@) == before.push(part@));
        }
        i = i + 1;
    }
    assert(all.take(all.len() as int) == all);
    let mut r = "{".to_owned();
    r.append(join_with(&parts, ",").as_str());
    r.append("}");
    r
}

/// The script for these settings, with the view to show as a JSON string.
pub fn settings_script(entries: &Vec<ScriptEntry>, view_json: &str) -> (r: String)
    ensures
        r@ == script(entry_views(entries@), view_json@),
{
    let mut r = "(function(){try{var s=".to_owned();
    r.append(write_object(entries).as_str());
    r.append(";window.__GHOSTFTP_SETTINGS__=s;window.__GHOSTFTP_QA_VIEW__=");
    r.append(view_json);
    r.append(
        ";var el=document.documentElement;if(el&&typeof s.appTheme==='string'){el.setAttribute('data-theme',s.appTheme);}}catch(e){}})();",
    );
    r
}

/// Whether a setting has this key.
pub open spec fn has_key(settings: Seq<Setting>, key: Seq<char>) -> bool {
    exists|i: int| 0 <= i < settings.len() && (#[trigger] settings[i]).key@ == key
}

/// What `serde_json` makes of a setting.
pub open spec fn entry_of(key: Seq<char>, value: Seq<char>) -> EntryView {
    EntryView { key_json: json_of(key), value, valid: is_json(value) }
}

/// The settings as they go into the script, with a dark theme where none is set: a
/// fresh installation has no rows yet.
pub open spec fn entries_of(settings: Seq<Setting>) -> Seq<EntryView> {
    let stored = settings.map_values(|s: Setting| entry_of(s.key@, s.value@));
    if has_key(settings, "appTheme"@) {
        stored
    } else {
        stored.push(entry_of("appTheme"@, "\"dark\""@))
    }
}

fn make_entry(key: &str, value: String) -> (r: ScriptEntry)
    ensures
        r@ == entry_of(key@, value@),
{
    let key_json = write_string(key);
    let valid = parses(value.as_str());
    ScriptEntry { key_json, value, valid }
}

fn make_entries(settings: &Vec<Setting>) -> (r: Vec<ScriptEntry>)
    ensures
        entry_views(r@) == entries_of(settings@),
{
    let mut entries: Vec<ScriptEntry> = Vec::new();
    let ghost stored = settings@.map_values(|s: Setting| entry_of(s.key@, s.value@));
    let mut themed = false;
    let mut i: usize = 0;
    while i < settings.len()
        invariant
            i <= settings.len(),
            stored == settings@.map_values(|s: Setting| entry_of(s.key@, s.value@)),
            entry_views(entries@) == stored.take(i as int),
            themed == exists|j: int| 0 <= j < i && (#[trigger] settings@[j]).key@ == "appTheme"@,
        decreases settings.len() - i,
    {
        let setting = &settings[i];
        let ghost before = entry_views(entries@);
        let is_theme = same(setting.key.as_str(), "appTheme");
        if is_theme {
            assert(settings@[i as int].key@ == "appTheme"@);
            themed = true;
        }
        entries.push(make_entry(setting.key.as_str(), setting.value.clone()));
        proof {
            assert(entry_views(entries@) == before.push(entries@.last()@));
            assert(stored.take(i + 1) == stored.take(i as int).push(stored[i as int]));
        }
        i = i + 1;
    }
    assert(stored.take(settings@.len() as int) == stored);
    if !themed {
        let ghost before = entry_views(entries@);
        entries.push(make_entry("appTheme", "\"dark\"".to_owned()));
        assert(entry_views(entries@) == before.push(entries@.last()@));
    }
    entries
}

/// Whether a view may be shown first.
pub open spec fn is_known_view(view: Seq<char>) -> bool {
    view == "main"@ || view == "siteManager"@ || view == "settings"@ || view == "transferCenter"@
        || view == "about"@ || view == "newConnection"@ || view == "properties"@
}

/// Whether a view may be shown first.
pub fn known_view(view: &str) -> (r: bool)
    ensures
        r == is_known_view(view@),
{
    same(view, "main") || same(view, "siteManager") || same(view, "settings") || same(
        view,
        "transferCenter",
    ) || same(view, "about") || same(view, "newConnection") || same(view, "properties")
}

/// The view that was asked for, where it is a known one; else none.
pub open spec fn first_view(asked: Option<Seq<char>>) -> Seq<char> {
    match asked {
        Some(view) if is_known_view(view) => view,
        _ => seq![],
    }
}

/// The script that hands the stored settings, in the given order, and the view that was
/// asked for to the main window.
pub fn build_settings_init_script(settings: &Vec<Setting>, asked: Option<String>) -> (r: String)
    ensures
        r@ == script(entries_of(settings@), json_of(first_view(opt_view(asked)))),
{
    let entries = make_entries(settings);
    let view = match asked {
        Some(view) => if known_view(view.as_str()) {
            view
        } else {
            String::new()
        },
        None => String::new(),
    };
    assert(view@ == first_view(opt_view(asked)));
    settings_script(&entries, write_string(view.as_str()).as_str())
}

/// The browser arguments and the data directory of the window, which are used only for a
/// known view and where they are not blank.
pub fn window_override(asked: &Option<String>, value: Option<String>) -> (r: Option<String>)
    ensures
        r == if asked matches Some(view) && is_known_view(view@) && (value matches Some(v)
            && crate::text::trimmed(v@).len() > 0) {
            value
        } else {
            None
        },
{
    match (asked, value) {
        (Some(view), Some(v)) => if known_view(view.as_str()) && !crate::text::trim(
            v.as_str(),
        ).is_empty() {
            Some(v)
        } else {
            None
        },
        _ => None,
    }
}

// ---------------------------------------------------------------- transfers
/// What the stored settings set for transfers; nothing is set where a setting is missing
/// or cannot be read.
#[derive(Debug, Clone, Copy, PartialEq, Eq)]
pub struct TransferSettings {
    pub concurrency: Option<usize>,
    pub throttle_kbps: Option<u64>,
    pub delta_sync: Option<bool>,
}

/// A number as a count, where it fits.
pub open spec fn counted(n: Option<u64>) -> Option<usize> {
    match n {
        Some(k) if k <= usize::MAX => Some(k as usize),
        _ => None,
    }
}

/// A number as a count, where it fits.
pub fn as_count(n: Option<u64>) -> (r: Option<usize>)
    ensures
        r == counted(n),
{
    match n {
        Some(k) => if k <= usize::MAX as u64 {
            Some(k as usize)
        } else {
            None
        },
        None => None,
    }
}

/// What is read in a stored setting, where there is one.
pub open spec fn read_with<T>(raw: Option<String>, read: spec_fn(Seq<char>) -> Option<T>) -> Option<
    T,
> {
    match raw {
        Some(text) => read(text@),
        None => None,
    }
}

/// Reads the stored `transferConcurrency`, `transferThrottleKbps` and `deltaSync`.
pub fn transfer_settings(
    concurrency: &Option<String>,
    throttle: &Option<String>,
    delta: &Option<String>,
) -> (r: TransferSettings)
    ensures
        r.concurrency == counted(read_with(*concurrency, |t: Seq<char>| number_in(t))),
        r.throttle_kbps == read_with(*throttle, |t: Seq<char>| number_in(t)),
        r.delta_sync == read_with(*delta, |t: Seq<char>| bool_in(t)),
{
    let concurrency = match concurrency {
        Some(raw) => as_count(read_number(raw.as_str())),
        None => None,
    };
    let throttle_kbps = match throttle {
        Some(raw) => read_number(raw.as_str()),
        None => None,
    };
    let delta_sync = match delta {
        Some(raw) => read_bool(raw.as_str()),
        None => None,
    };
    TransferSettings { concurrency, throttle_kbps, delta_sync }
}

// ---------------------------------------------------------------- laws
proof fn lemma_members_concat(a: Seq<EntryView>, b: Seq<EntryView>)
    ensures
        members(a + b) == members(a) + members(b),
    decreases b.len(),
{
    if b.len() == 0 {
        assert(a + b == a);
        assert(members(b) == Seq::<Seq<char>>::empty());
        assert(members(a + b) == members(a) + members(b));
    } else {
        assert((a + b).drop_last() == a + b.drop_last());
        lemma_members_concat(a, b.drop_last());
        assert(members(a + b) == members(a) + members(b));
    }
}

/// A corrupt row changes nothing: the script is the same as without it.
pub proof fn law_corrupt_row_changes_nothing(
    before: Seq<EntryView>,
    bad: EntryView,
    after: Seq<EntryView>,
    view_json: Seq<char>,
)
    requires
        !bad.valid,
    ensures
        script(before.push(bad) + after, view_json) == script(before + after, view_json),
{
    lemma_members_concat(before.push(bad), after);
    lemma_members_concat(before, after);
    assert(before.push(bad).drop_last() == before);
}

/// Every valid row is in the script's object, as `key:value`.
pub proof fn law_valid_row_is_kept(entries: Seq<EntryView>, i: int)
    requires
        0 <= i < entries.len(),
        entries[i].valid,
    ensures
        members(entries).contains(entries[i].key_json + ":"@ + entries[i].value),
    decreases entries.len(),
{
    let member = entries[i].key_json + ":"@ + entries[i].value;
    let rest = entries.drop_last();
    if i < rest.len() {
        law_valid_row_is_kept(rest, i);
        assert(rest[i] == entries[i]);
        let k = choose|k: int| 0 <= k < members(rest).len() && members(rest)[k] == member;
        assert(members(entries)[k] == member);
    } else {
        assert(members(entries).last() == member);
    }
}

/// The script always gets a theme: the stored one, or the dark one.
pub proof fn law_theme_is_always_set(settings: Seq<Setting>)
    ensures
        exists|i: int|
            0 <= i < entries_of(settings).len() && #[trigger] entries_of(settings)[i].key_json
                == json_of("appTheme"@),
{
    let entries = entries_of(settings);
    if has_key(settings, "appTheme"@) {
        let i = choose|i: int|
            0 <= i < settings.len() && (#[trigger] settings[i]).key@ == "appTheme"@;
        assert(entries[i].key_json == json_of("appTheme"@));
    } else {
        assert(entries[entries.len() - 1].key_json == json_of("appTheme"@));
    }
}

/// What goes into the object comes row by row: the key, a colon and the value of a row
/// whose value is JSON, and nothing of any other.
pub proof fn law_members_by_row(a: Seq<EntryView>, b: Seq<EntryView>, entry: EntryView)
    ensures
        members(a + b) == members(a) + members(b),
        members(seq![]) == Seq::<Seq<char>>::empty(),
        entry.valid ==> members(seq![entry]) == seq![entry.key_json + seq![':'] + entry.value],
        !entry.valid ==> members(seq![entry]) == Seq::<Seq<char>>::empty(),
{
    lemma_members_concat(a, b);
    reveal_strlit(":");
    assert(":"@ == seq![':']);
    let one = seq![entry];
    assert(one.drop_last() == Seq::<EntryView>::empty());
    assert(one.last() == entry);
    assert(members(one.drop_last()) == Seq::<Seq<char>>::empty());
}

/// The script holds the object and the view, in this order.
pub proof fn law_script_holds_object_and_view(entries: Seq<EntryView>, view_json: Seq<char>)
    ensures
        occurs(script(entries, view_json), object(entries)),
        occurs(script(entries, view_json), view_json),
        object(entries).len() >= 2,
        object(entries)[0] == '{',
        object(entries).last() == '}',
        object(entries).drop_first().drop_last() == join(members(entries), seq![',']),
{
    reveal_strlit("{");
    reveal_strlit("}");
    reveal_strlit(",");
    assert(","@ == seq![',']);
    let s = script(entries, view_json);
    let a = "(function(){try{var s="@;
    let b = ";window.__GHOSTFTP_SETTINGS__=s;window.__GHOSTFTP_QA_VIEW__="@;
    let c =
        ";var el=document.documentElement;if(el&&typeof s.appTheme==='string'){el.setAttribute('data-theme',s.appTheme);}}catch(e){}})();"@;
    law_occurs(s, object(entries));
    law_occurs(s, view_json);
    assert(s == a + object(entries) + (b + view_json + c));
    assert(parts_round(s, a, object(entries), b + view_json + c));
    assert(parts_round(s, a + object(entries) + b, view_json, c));
    assert(object(entries).drop_first().drop_last() == join(members(entries), ","@));
}

/// Every stored setting goes to the script as it is, its key as a JSON string; the dark
/// theme comes behind them where no setting is named `appTheme`, and nothing else does.
pub proof fn law_entries_are_the_settings(settings: Seq<Setting>, i: int)
    ensures
        0 <= i < settings.len() ==> {
            &&& entries_of(settings)[i].key_json == json_of(settings[i].key@)
            &&& entries_of(settings)[i].value == settings[i].value@
            &&& entries_of(settings)[i].valid == is_json(settings[i].value@)
        },
        (exists|k: int| 0 <= k < settings.len() && (#[trigger] settings[k]).key@ == "appTheme"@)
            ==> entries_of(settings).len() == settings.len(),
        !(exists|k: int| 0 <= k < settings.len() && (#[trigger] settings[k]).key@ == "appTheme"@)
            ==> {
            &&& entries_of(settings).len() == settings.len() + 1
            &&& entries_of(settings).last().key_json == json_of("appTheme"@)
            &&& entries_of(settings).last().value == seq!['"', 'd', 'a', 'r', 'k', '"']
        },
{
    reveal_strlit("\"dark\"");
    assert("\"dark\""@ == seq!['"', 'd', 'a', 'r', 'k', '"']);
}

/// The view that was asked for is shown where it is one of the seven known ones; else
/// none is.
pub proof fn law_first_view(view: Seq<char>)
    ensures
        first_view(Some(view)) == if (seq![
            "main"@,
            "siteManager"@,
            "settings"@,
            "transferCenter"@,
            "about"@,
            "newConnection"@,
            "properties"@,
        ]).contains(view) {
            view
        } else {
            seq![]
        },
        first_view(None) == Seq::<char>::empty(),
{
    let known = seq![
        "main"@,
        "siteManager"@,
        "settings"@,
        "transferCenter"@,
        "about"@,
        "newConnection"@,
        "properties"@,
    ];
    if is_known_view(view) {
        assert(known[0] == "main"@);
        assert(known[1] == "siteManager"@);
        assert(known[2] == "settings"@);
        assert(known[3] == "transferCenter"@);
        assert(known[4] == "about"@);
        assert(known[5] == "newConnection"@);
        assert(known[6] == "properties"@);
    }
}

/// A count is the number that was read, where that fits.
pub proof fn law_counted(n: u64)
    ensures
        n <= usize::MAX ==> counted(Some(n)) is Some && counted(Some(n))->Some_0 == n,
        n > usize::MAX ==> counted(Some(n)) is None,
        counted(None) is None,
{
}

/// What is read in a setting is read in its text; nothing is read where there is none.
pub proof fn law_read_with<T>(text: String, read: spec_fn(Seq<char>) -> Option<T>)
    ensures
        read_with(Some(text), read) == read(text@),
        read_with(None, read) is None,
{
}

} // verus!
