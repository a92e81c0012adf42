//! Chrome's `Preferences` file of a profile: the profile's name, avatar and theme colour
//! written into the JSON document, every other member kept.

use vstd::prelude::*;
use crate::color::{chrome_argb_color, parse_profile_color, spec_parse_color};
use crate::launch::Profile;
use crate::text::{i64_text, int_text, to_string};

verus! {

/// A JSON value; numbers are kept as the text they are written with.
#[derive(Debug)]
pub enum Json {
    Null,
    Bool(bool),
    Number(String),
    Text(String),
    Array(Vec<Json>),
    Object(Vec<(String, Json)>),
}

/// The value of the first member named `key`, if any.
pub open spec fn member(entries: Seq<(String, Json)>, key: Seq<char>) -> Option<Json>
    decreases entries.len(),
{
    if entries.len() == 0 {
        None
    } else if entries[0].0@ == key {
        Some(entries[0].1)
    } else {
        member(entries.drop_first(), key)
    }
}

/// `i` is where the first member named `key` stands.
pub open spec fn first_member_at(entries: Seq<(String, Json)>, key: Seq<char>, i: int) -> bool {
    0 <= i < entries.len() && entries[i].0@ == key && forall|j: int| 0 <= j < i ==> entries[j].0@ != key
}

pub open spec fn text_is(j: Option<Json>, s: Seq<char>) -> bool {
    j matches Some(Json::Text(t)) && t@ == s
}

pub open spec fn number_is(j: Option<Json>, s: Seq<char>) -> bool {
    j matches Some(Json::Number(t)) && t@ == s
}

/// The members of `j` when it is an object, none when it is absent.
pub open spec fn entries_of(j: Option<Json>) -> Seq<(String, Json)> {
    match j {
        Some(Json::Object(es)) => es@,
        _ => Seq::empty(),
    }
}

pub open spec fn object_or_absent(j: Option<Json>) -> bool {
    j is None || j matches Some(Json::Object(_))
}

/// `new` is the object `old` (or an empty one when absent) with the members `a` and `b` set
/// as `holds` says and every other member kept.
pub open spec fn kept_except(new: Seq<(String, Json)>, old: Seq<(String, Json)>, a: Seq<char>, b: Seq<char>) -> bool {
    forall|k: Seq<char>| k != a && k != b ==> #[trigger] member(new, k) == member(old, k)
}

/// The profile member written: the name and avatar 26, the rest kept.
pub open spec fn profile_written(new: Option<Json>, old: Option<Json>, name: Seq<char>) -> bool {
    &&& new matches Some(Json::Object(pe))
    &&& text_is(member(entries_of(new), "name"@), name)
    &&& number_is(member(entries_of(new), "avatar_index"@), "26"@)
    &&& kept_except(entries_of(new), entries_of(old), "name"@, "avatar_index"@)
}

/// The `extensions` member written: its theme is the user colour theme, the rest kept.
pub open spec fn extensions_written(new: Option<Json>, old: Option<Json>) -> bool {
    &&& new matches Some(Json::Object(xe))
    &&& member(entries_of(new), "theme"@) matches Some(Json::Object(t))
    &&& text_is(member(t@, "id"@), "user_color_theme_id"@)
    &&& forall|k: Seq<char>| k != "id"@ ==> #[trigger] member(t@, k) is None
    &&& kept_except(entries_of(new), entries_of(old), "theme"@, "theme"@)
}

/// The keys of Chrome's browser theme.
pub open spec fn browser_theme_key(k: Seq<char>) -> bool {
    k == "color_scheme"@ || k == "color_scheme2"@ || k == "color_variant"@ || k == "color_variant2"@
        || k == "follows_system_colors"@ || k == "user_color"@ || k == "user_color2"@
}

/// A browser theme of colour `color`: schemes and variants 1, not following the system, the
/// user colour twice.
pub open spec fn browser_theme(t: Seq<(String, Json)>, color: int) -> bool {
    &&& number_is(member(t, "color_scheme"@), "1"@)
    &&& number_is(member(t, "color_scheme2"@), "1"@)
    &&& number_is(member(t, "color_variant"@), "1"@)
    &&& number_is(member(t, "color_variant2"@), "1"@)
    &&& member(t, "follows_system_colors"@) matches Some(Json::Bool(false))
    &&& number_is(member(t, "user_color"@), int_text(color))
    &&& number_is(member(t, "user_color2"@), int_text(color))
    &&& forall|k: Seq<char>| !browser_theme_key(k) ==> #[trigger] member(t, k) is None
}

/// The `browser` member written: its theme is that of colour `color`, the rest kept.
pub open spec fn browser_written(new: Option<Json>, old: Option<Json>, color: int) -> bool {
    &&& new matches Some(Json::Object(be))
    &&& member(entries_of(new), "theme"@) matches Some(Json::Object(t))
    &&& browser_theme(t@, color)
    &&& kept_except(entries_of(new), entries_of(old), "theme"@, "theme"@)
}

/// The members of the document read (an empty object when there is none), if it is an object.
pub open spec fn root_entries(existing: Option<Json>) -> Option<Seq<(String, Json)>> {
    match existing {
        None => Some(Seq::empty()),
        Some(Json::Object(es)) => Some(es@),
        Some(_) => None,
    }
}

/// Writing the colour into the document needs its `extensions` and `browser` members to be
/// objects where they are present.
pub open spec fn slots_fit(existing: Option<Json>, color: Option<Seq<char>>) -> bool {
    match (root_entries(existing), color) {
        (Some(es), Some(c)) => spec_parse_color(c) is Ok ==> object_or_absent(member(es, "extensions"@))
            && object_or_absent(member(es, "browser"@)),
        _ => true,
    }
}

proof fn lemma_member_update(es: Seq<(String, Json)>, i: int, key: Seq<char>, p: (String, Json))
    requires
        first_member_at(es, key, i),
        p.0@ == key,
    ensures
        member(es.update(i, p), key) == Some(p.1),
        forall|k: Seq<char>| k != key ==> #[trigger] member(es.update(i, p), k) == member(es, k),
    decreases i,
{
    let u = es.update(i, p);
    if i == 0 {
        assert(u.drop_first() =~= es.drop_first());
        assert(u[0] == p);
        assert forall|k: Seq<char>| k != key implies #[trigger] member(u, k) == member(es, k) by {
            assert(member(u, k) == member(u.drop_first(), k));
        }
    } else {
        assert(u.drop_first() =~= es.drop_first().update(i - 1, p));
        assert(u[0] == es[0]);
        lemma_member_update(es.drop_first(), i - 1, key, p);
        assert forall|k: Seq<char>| k != key implies #[trigger] member(u, k) == member(es, k) by {
            if es[0].0@ != k {
                assert(member(es.drop_first().update(i - 1, p), k) == member(es.drop_first(), k));
            }
        }
    }
}

proof fn lemma_member_remove(es: Seq<(String, Json)>, i: int, key: Seq<char>)
    requires
        first_member_at(es, key, i),
    ensures
        forall|k: Seq<char>| k != key ==> #[trigger] member(es.remove(i), k) == member(es, k),
    decreases i,
{
    let r = es.remove(i);
    if i == 0 {
        assert(r =~= es.drop_first());
        assert forall|k: Seq<char>| k != key implies #[trigger] member(r, k) == member(es, k) by {
            assert(member(es, k) == member(es.drop_first(), k));
        }
    } else {
        assert(r.drop_first() =~= es.drop_first().remove(i - 1));
        assert(r[0] == es[0]);
        lemma_member_remove(es.drop_first(), i - 1, key);
        assert forall|k: Seq<char>| k != key implies #[trigger] member(r, k) == member(es, k) by {
            if es[0].0@ != k {
                assert(member(es.drop_first().remove(i - 1), k) == member(es.drop_first(), k));
            }
        }
    }
}

proof fn lemma_member_push(es: Seq<(String, Json)>, key: Seq<char>, p: (String, Json))
    requires
        member(es, key) is None,
        p.0@ == key,
    ensures
        member(es.push(p), key) == Some(p.1),
        forall|k: Seq<char>| k != key ==> #[trigger] member(es.push(p), k) == member(es, k),
    decreases es.len(),
{
    let u = es.push(p);
    if es.len() == 0 {
        assert(u.drop_first() =~= Seq::<(String, Json)>::empty());
        assert(u[0] == p);
        assert forall|k: Seq<char>| k != key implies #[trigger] member(u, k) == member(es, k) by {
            assert(member(u, k) == member(u.drop_first(), k));
        }
    } else {
        assert(u.drop_first() =~= es.drop_first().push(p));
        assert(u[0] == es[0]);
        lemma_member_push(es.drop_first(), key, p);
        assert forall|k: Seq<char>| k != key implies #[trigger] member(u, k) == member(es, k) by {
            if es[0].0@ != k {
                assert(member(es.drop_first().push(p), k) == member(es.drop_first(), k));
            }
        }
    }
}

/// Where the first member named `key` stands.
fn find_member(entries: &Vec<(String, Json)>, key: &str) -> (out: Option<usize>)
    ensures
        match out {
            Some(i) => first_member_at(entries@, key@, i as int) && member(entries@, key@) == Some(entries@[i as int].1),
            None => member(entries@, key@) is None,
        },
{
    let mut i: usize = 0;
    assert(entries@.skip(0) =~= entries@);
    while i < entries.len()
        invariant
            i <= entries.len(),
            member(entries@, key@) == member(entries@.skip(i as int), key@),
            forall|j: int| 0 <= j < i ==> entries@[j].0@ != key@,
        decreases entries.len() - i,
    {
        assert(entries@.skip(i as int)[0] == entries@[i as int]);
        if crate::text::is_text(&crate::text::chars_of(entries[i].0.as_str()), key) {
            return Some(i);
        }
        assert(entries@.skip(i as int).drop_first() =~= entries@.skip(i + 1));
        i += 1;
    }
    None
}

/// Sets the member named `key` to `value`, keeping every other member.
fn set_member(entries: &mut Vec<(String, Json)>, key: &str, value: Json)
    ensures
        member(final(entries)@, key@) == Some(value),
        forall|k: Seq<char>| k != key@ ==> #[trigger] member(final(entries)@, k) == member(old(entries)@, k),
{
    let ghost before = entries@;
    match find_member(entries, key) {
        Some(i) => {
            let _ = entries.remove(i);
            entries.insert(i, (key.to_string(), value));
            assert(entries@ =~= before.update(i as int, (entries@[i as int].0, value)));
            proof {
                lemma_member_update(before, i as int, key@, entries@[i as int]);
            }
        },
        None => {
            entries.push((key.to_string(), value));
            proof {
                lemma_member_push(before, key@, entries@.last());
            }
        },
    }
}

/// Takes the object named `key` out of `entries`: an empty one when there is none, nothing
/// when the member is not an object; every other member is kept.
fn take_object(entries: &mut Vec<(String, Json)>, key: &str) -> (out: Option<Vec<(String, Json)>>)
    ensures
        match member(old(entries)@, key@) {
            None => out matches Some(o) && o@.len() == 0,
            Some(Json::Object(o)) => out matches Some(t) && t@ == o@,
            Some(_) => out is None,
        },
        forall|k: Seq<char>| k != key@ ==> #[trigger] member(final(entries)@, k) == member(old(entries)@, k),
{
    let ghost before = entries@;
    match find_member(entries, key) {
        None => Some(Vec::new()),
        Some(i) => {
            proof {
                lemma_member_remove(before, i as int, key@);
            }
            let (_, v) = entries.remove(i);
            match v {
                Json::Object(o) => Some(o),
                _ => None,
            }
        },
    }
}

fn number(text: &str) -> (out: Json)
    ensures
        out matches Json::Number(t) && t@ == text@,
{
    Json::Number(text.to_string())
}

/// Chrome's browser theme of colour `color`.
fn browser_theme_object(color: i32) -> (out: Vec<(String, Json)>)
    ensures
        browser_theme(out@, color as int),
{
    proof {
        reveal_strlit("color_scheme");
        reveal_strlit("color_scheme2");
        reveal_strlit("color_variant");
        reveal_strlit("color_variant2");
        reveal_strlit("follows_system_colors");
        reveal_strlit("user_color");
        reveal_strlit("user_color2");
    }
    let c = to_string(&i64_text(color as i64));
    let mut t: Vec<(String, Json)> = Vec::new();
    assert(forall|k: Seq<char>| #[trigger] member(t@, k) is None);
    let ghost keys = seq![
        "color_scheme"@, "color_scheme2"@, "color_variant"@, "color_variant2"@,
        "follows_system_colors"@, "user_color"@, "user_color2"@,
    ];
    proof {
        assert(keys[0].len() == 12);
        assert(keys[1].len() == 13);
        assert(keys[2].len() == 13);
        assert(keys[3].len() == 14);
        assert(keys[4].len() == 21);
        assert(keys[5].len() == 10);
        assert(keys[6].len() == 11);
        assert(keys[1][6] != keys[2][6]);
        assert(keys[1] != keys[2]);
        assert(keys[0] != keys[1]);
        assert(keys[0] != keys[2]);
        assert(keys[0] != keys[3]);
        assert(keys[0] != keys[4]);
        assert(keys[0] != keys[5]);
        assert(keys[0] != keys[6]);
        assert(keys[1] != keys[3]);
        assert(keys[1] != keys[4]);
        assert(keys[1] != keys[5]);
        assert(keys[1] != keys[6]);
        assert(keys[2] != keys[3]);
        assert(keys[2] != keys[4]);
        assert(keys[2] != keys[5]);
        assert(keys[2] != keys[6]);
        assert(keys[3] != keys[4]);
        assert(keys[3] != keys[5]);
        assert(keys[3] != keys[6]);
        assert(keys[4] != keys[5]);
        assert(keys[4] != keys[6]);
        assert(keys[5] != keys[6]);
    }
    set_member(&mut t, "color_scheme", number("1"));
    let ghost t1 = t@;
    set_member(&mut t, "color_scheme2", number("1"));
    let ghost t2 = t@;
    set_member(&mut t, "color_variant", number("1"));
    let ghost t3 = t@;
    set_member(&mut t, "color_variant2", number("1"));
    let ghost t4 = t@;
    set_member(&mut t, "follows_system_colors", Json::Bool(false));
    let ghost t5 = t@;
    set_member(&mut t, "user_color", Json::Number(c.clone()));
    let ghost t6 = t@;
    set_member(&mut t, "user_color2", Json::Number(c));
    proof {
        assert(member(t@, keys[0]) == member(t1, keys[0]));
        assert(member(t@, keys[1]) == member(t2, keys[1]));
        assert(member(t@, keys[2]) == member(t3, keys[2]));
        assert(member(t@, keys[3]) == member(t4, keys[3]));
        assert(member(t@, keys[4]) == member(t5, keys[4]));
        assert(member(t@, keys[5]) == member(t6, keys[5]));
        assert forall|k: Seq<char>| !browser_theme_key(k) implies #[trigger] member(t@, k) is None by {
            assert(member(t@, k) == member(t6, k));
            assert(member(t6, k) == member(t5, k));
            assert(member(t5, k) == member(t4, k));
            assert(member(t4, k) == member(t3, k));
            assert(member(t3, k) == member(t2, k));
            assert(member(t2, k) == member(t1, k));
        }
    }
    t
}

/// Whether the colour of `profile` can be written into the document `existing`: its
/// `extensions` and `browser` members are objects where present.
pub fn preferences_slots_fit(existing: &Option<Json>, profile: &Profile) -> (r: bool)
    ensures
        r == slots_fit(*existing, crate::text::opt_view(profile.profile_color)),
{
    let entries = match existing {
        None => return true,
        Some(Json::Object(es)) => es,
        Some(_) => return true,
    };
    let color = match &profile.profile_color {
        None => return true,
        Some(c) => c,
    };
    if parse_profile_color(color.as_str()).is_err() {
        return true;
    }
    let x = find_member(entries, "extensions");
    let b = find_member(entries, "browser");
    let x_ok = match x {
        None => true,
        Some(i) => match &entries[i].1 {
            Json::Object(_) => true,
            _ => false,
        },
    };
    let b_ok = match b {
        None => true,
        Some(i) => match &entries[i].1 {
            Json::Object(_) => true,
            _ => false,
        },
    };
    x_ok && b_ok
}

/// What the `Preferences` document of `profile` becomes, from the document `existing` read
/// from its file (`None` when there is none or it is not JSON, which counts as an empty
/// object): its `profile` member gets the profile's name and avatar 26; when the profile has
/// a colour, `extensions.theme` becomes the user colour theme and `browser.theme` Chrome's
/// theme of that colour; every other member is kept. A document that is not an object, a
/// `profile` member that is not an object, and a colour that does not parse are errors, in
/// that order.
pub fn merge_chrome_preferences(existing: Option<Json>, profile: &Profile) -> (out: Result<Json, String>)
    requires
        slots_fit(existing, crate::text::opt_view(profile.profile_color)),
    ensures
        match root_entries(existing) {
            None => out matches Err(e) && e@ == "Chrome preferences root is invalid."@,
            Some(es) => if !object_or_absent(member(es, "profile"@)) {
                out matches Err(e) && e@ == "Chrome profile preferences are invalid."@
            } else {
                match profile.profile_color {
                    Some(c) if spec_parse_color(c@) is Err => out matches Err(e) && e@ == spec_parse_color(c@)->Err_0,
                    _ => out matches Ok(Json::Object(o)) && {
                        &&& profile_written(member(o@, "profile"@), member(es, "profile"@), profile.name@)
                        &&& forall|k: Seq<char>| k != "profile"@ && k != "extensions"@ && k != "browser"@
                            ==> #[trigger] member(o@, k) == member(es, k)
                        &&& match profile.profile_color {
                            Some(c) => {
                                &&& extensions_written(member(o@, "extensions"@), member(es, "extensions"@))
                                &&& browser_written(
                                    member(o@, "browser"@),
                                    member(es, "browser"@),
                                    crate::sessions::argb(spec_parse_color(c@)->Ok_0),
                                )
                            },
                            None => member(o@, "extensions"@) == member(es, "extensions"@)
                                && member(o@, "browser"@) == member(es, "browser"@),
                        }
                    },
                }
            },
        },
{
    proof {
        reveal_strlit("profile");
        reveal_strlit("extensions");
        reveal_strlit("browser");
        reveal_strlit("name");
        reveal_strlit("avatar_index");
        reveal_strlit("theme");
        reveal_strlit("id");
        assert("profile"@.len() == 7 && "extensions"@.len() == 10 && "browser"@.len() == 7);
        assert("profile"@[0] != "browser"@[0]);
        assert("name"@.len() == 4 && "avatar_index"@.len() == 12);
    }
    let mut root = match existing {
        None => Vec::new(),
        Some(Json::Object(es)) => es,
        Some(_) => return Err("Chrome preferences root is invalid.".to_string()),
    };
    let ghost es = root@;
    let mut pe = match take_object(&mut root, "profile") {
        Some(o) => o,
        None => return Err("Chrome profile preferences are invalid.".to_string()),
    };
    let ghost pe0 = pe@;
    set_member(&mut pe, "name", Json::Text(profile.name.clone()));
    let ghost pe1 = pe@;
    set_member(&mut pe, "avatar_index", number("26"));
    proof {
        assert(member(pe@, "name"@) == member(pe1, "name"@));
        assert forall|k: Seq<char>| k != "name"@ && k != "avatar_index"@ implies #[trigger] member(pe@, k) == member(pe0, k) by {
            assert(member(pe@, k) == member(pe1, k));
        }
    }
    let ghost pe_final = pe@;
    let ghost r1 = root@;
    set_member(&mut root, "profile", Json::Object(pe));
    let ghost r2 = root@;
    let color = match &profile.profile_color {
        None => {
            return Ok(Json::Object(root));
        },
        Some(c) => c,
    };
    let user_color = match parse_profile_color(color.as_str()) {
        Ok((r, g, b)) => chrome_argb_color(r, g, b),
        Err(e) => return Err(e),
    };
    let mut xe = match take_object(&mut root, "extensions") {
        Some(o) => o,
        None => {
            proof {
                assert(false);
            }
            return Err(String::new());
        },
    };
    let ghost xe0 = xe@;
    let mut theme: Vec<(String, Json)> = Vec::new();
    assert(forall|k: Seq<char>| #[trigger] member(theme@, k) is None);
    set_member(&mut theme, "id", Json::Text("user_color_theme_id".to_string()));
    set_member(&mut xe, "theme", Json::Object(theme));
    let ghost r3 = root@;
    set_member(&mut root, "extensions", Json::Object(xe));
    let ghost r4 = root@;
    let mut be = match take_object(&mut root, "browser") {
        Some(o) => o,
        None => {
            proof {
                assert(false);
            }
            return Err(String::new());
        },
    };
    set_member(&mut be, "theme", Json::Object(browser_theme_object(user_color)));
    let ghost r5 = root@;
    set_member(&mut root, "browser", Json::Object(be));
    proof {
        assert(member(root@, "profile"@) == member(r2, "profile"@));
        assert(member(root@, "extensions"@) == member(r4, "extensions"@));
        assert forall|k: Seq<char>| k != "profile"@ && k != "extensions"@ && k != "browser"@
            implies #[trigger] member(root@, k) == member(es, k) by {
            assert(member(root@, k) == member(r5, k));
            assert(member(r5, k) == member(r4, k));
            assert(member(r4, k) == member(r3, k));
            assert(member(r3, k) == member(r2, k));
            assert(member(r2, k) == member(r1, k));
        }
    }
    Ok(Json::Object(root))
}

} // verus!
