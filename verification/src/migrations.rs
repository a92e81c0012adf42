//! The database schema's migrations: which are still to run, in what order, and the default
//! colours given to existing profiles when colours were introduced.

use vstd::prelude::*;
use crate::color::{default_profile_color, palette_color};

verus! {

/// The first and last migration versions.
pub const FIRST_MIGRATION: i64 = 1;
pub const LAST_MIGRATION: i64 = 5;

/// A change to the database schema, recorded under its version once it has run.
pub struct Migration {
    pub version: i64,
    pub name: String,
    pub sql: String,
    pub assigns_colors: bool,
}

/// The name a migration is recorded under.
pub open spec fn migration_name(version: int) -> Seq<char> {
    if version == 1 {
        "initial_profile_and_proxy_schema"@
    } else if version == 2 {
        "profile_proxy_settings"@
    } else if version == 3 {
        "profile_browser_controls_and_keychain_proxy"@
    } else if version == 4 {
        "profile_timezone_and_webrtc_policy"@
    } else {
        "profile_theme_color"@
    }
}

/// The statements run before any migration: foreign keys on, and the table that records
/// migrations.
pub fn schema_setup_sql() -> (out: &'static str)
    ensures
        out@ == "PRAGMA foreign_keys = ON;\nCREATE TABLE IF NOT EXISTS schema_migrations (\n  version INTEGER PRIMARY KEY,\n  name TEXT NOT NULL,\n  applied_at TEXT NOT NULL\n);\n"@,
{
    "PRAGMA foreign_keys = ON;\nCREATE TABLE IF NOT EXISTS schema_migrations (\n  version INTEGER PRIMARY KEY,\n  name TEXT NOT NULL,\n  applied_at TEXT NOT NULL\n);\n"
}

/// The statements a migration runs.
pub open spec fn migration_text(version: int) -> Seq<char> {
    if version == 1 {
        "CREATE TABLE profiles (\n  id TEXT PRIMARY KEY,\n  name TEXT NOT NULL,\n  notes TEXT NOT NULL DEFAULT '',\n  tags_json TEXT NOT NULL DEFAULT '[]',\n  browser_binary_path TEXT,\n  user_data_dir TEXT NOT NULL,\n  proxy_id TEXT,\n  launch_args_json TEXT NOT NULL DEFAULT '[]',\n  startup_urls_json TEXT NOT NULL DEFAULT '[]',\n  created_at TEXT NOT NULL,\n  updated_at TEXT NOT NULL,\n  last_launched_at TEXT,\n  FOREIGN KEY (proxy_id) REFERENCES proxies(id)\n);\nCREATE TABLE proxies (\n  id TEXT PRIMARY KEY,\n  name TEXT NOT NULL,\n  type TEXT NOT NULL,\n  host TEXT NOT NULL,\n  port INTEGER NOT NULL,\n  username TEXT,\n  password_secret_ref TEXT,\n  notes TEXT NOT NULL DEFAULT '',\n  created_at TEXT NOT NULL,\n  updated_at TEXT NOT NULL\n);\n"@
    } else if version == 2 {
        "ALTER TABLE profiles ADD COLUMN proxy_scheme TEXT;\nALTER TABLE profiles ADD COLUMN proxy_host TEXT;\nALTER TABLE profiles ADD COLUMN proxy_port INTEGER;\n"@
    } else if version == 3 {
        "ALTER TABLE profiles ADD COLUMN proxy_username TEXT;\nALTER TABLE profiles ADD COLUMN proxy_password_secret_ref TEXT;\nALTER TABLE profiles ADD COLUMN user_agent TEXT;\nALTER TABLE profiles ADD COLUMN language TEXT;\nALTER TABLE profiles ADD COLUMN webrtc_disabled INTEGER NOT NULL DEFAULT 0;\nALTER TABLE profiles ADD COLUMN window_width INTEGER;\nALTER TABLE profiles ADD COLUMN window_height INTEGER;\nALTER TABLE profiles ADD COLUMN window_x INTEGER;\nALTER TABLE profiles ADD COLUMN window_y INTEGER;\n"@
    } else if version == 4 {
        "ALTER TABLE profiles ADD COLUMN timezone TEXT;\nALTER TABLE profiles ADD COLUMN webrtc_policy TEXT NOT NULL DEFAULT 'default';\nUPDATE profiles\nSET webrtc_policy = CASE\n  WHEN webrtc_disabled = 1 THEN 'proxy_only'\n  ELSE 'default'\nEND;\n"@
    } else {
        "ALTER TABLE profiles ADD COLUMN profile_color TEXT;\n"@
    }
}

/// Migration `version`: its name, its statements, and whether the existing profiles are then
/// given their default colours.
pub fn migration(version: i64) -> (out: Migration)
    requires
        FIRST_MIGRATION <= version <= LAST_MIGRATION,
    ensures
        out.version == version,
        out.name@ == migration_name(version as int),
        out.sql@ == migration_text(version as int),
        out.assigns_colors == (version == LAST_MIGRATION),
{
    let (name, sql) = if version == 1 {
        ("initial_profile_and_proxy_schema", "CREATE TABLE profiles (\n  id TEXT PRIMARY KEY,\n  name TEXT NOT NULL,\n  notes TEXT NOT NULL DEFAULT '',\n  tags_json TEXT NOT NULL DEFAULT '[]',\n  browser_binary_path TEXT,\n  user_data_dir TEXT NOT NULL,\n  proxy_id TEXT,\n  launch_args_json TEXT NOT NULL DEFAULT '[]',\n  startup_urls_json TEXT NOT NULL DEFAULT '[]',\n  created_at TEXT NOT NULL,\n  updated_at TEXT NOT NULL,\n  last_launched_at TEXT,\n  FOREIGN KEY (proxy_id) REFERENCES proxies(id)\n);\nCREATE TABLE proxies (\n  id TEXT PRIMARY KEY,\n  name TEXT NOT NULL,\n  type TEXT NOT NULL,\n  host TEXT NOT NULL,\n  port INTEGER NOT NULL,\n  username TEXT,\n  password_secret_ref TEXT,\n  notes TEXT NOT NULL DEFAULT '',\n  created_at TEXT NOT NULL,\n  updated_at TEXT NOT NULL\n);\n")
    } else if version == 2 {
        ("profile_proxy_settings", "ALTER TABLE profiles ADD COLUMN proxy_scheme TEXT;\nALTER TABLE profiles ADD COLUMN proxy_host TEXT;\nALTER TABLE profiles ADD COLUMN proxy_port INTEGER;\n")
    } else if version == 3 {
        ("profile_browser_controls_and_keychain_proxy", "ALTER TABLE profiles ADD COLUMN proxy_username TEXT;\nALTER TABLE profiles ADD COLUMN proxy_password_secret_ref TEXT;\nALTER TABLE profiles ADD COLUMN user_agent TEXT;\nALTER TABLE profiles ADD COLUMN language TEXT;\nALTER TABLE profiles ADD COLUMN webrtc_disabled INTEGER NOT NULL DEFAULT 0;\nALTER TABLE profiles ADD COLUMN window_width INTEGER;\nALTER TABLE profiles ADD COLUMN window_height INTEGER;\nALTER TABLE profiles ADD COLUMN window_x INTEGER;\nALTER TABLE profiles ADD COLUMN window_y INTEGER;\n")
    } else if version == 4 {
        ("profile_timezone_and_webrtc_policy", "ALTER TABLE profiles ADD COLUMN timezone TEXT;\nALTER TABLE profiles ADD COLUMN webrtc_policy TEXT NOT NULL DEFAULT 'default';\nUPDATE profiles\nSET webrtc_policy = CASE\n  WHEN webrtc_disabled = 1 THEN 'proxy_only'\n  ELSE 'default'\nEND;\n")
    } else {
        ("profile_theme_color", "ALTER TABLE profiles ADD COLUMN profile_color TEXT;\n")
    };
    Migration { version, name: name.to_string(), sql: sql.to_string(), assigns_colors: version == LAST_MIGRATION }
}

/// The migrations from `from` on that are not in `applied`, in ascending order.
pub open spec fn pending_from(applied: Seq<i64>, from: int) -> Seq<i64>
    decreases LAST_MIGRATION - from + 1,
{
    if from > LAST_MIGRATION {
        Seq::empty()
    } else if from < FIRST_MIGRATION {
        pending_from(applied, FIRST_MIGRATION as int)
    } else if applied.contains(from as i64) {
        pending_from(applied, from + 1)
    } else {
        seq![from as i64] + pending_from(applied, from + 1)
    }
}

/// The migrations not yet recorded in `applied`, in the order they run.
pub open spec fn spec_pending(applied: Seq<i64>) -> Seq<i64> {
    pending_from(applied, FIRST_MIGRATION as int)
}

/// The migrations not yet recorded among the versions `applied`, in the order they run.
pub fn pending_migrations(applied: &Vec<i64>) -> (out: Vec<Migration>)
    ensures
        out@.len() == spec_pending(applied@).len(),
        forall|i: int| 0 <= i < out@.len() ==> {
            &&& (#[trigger] out@[i]).version == spec_pending(applied@)[i]
            &&& out@[i].name@ == migration_name(out@[i].version as int)
            &&& out@[i].sql@ == migration_text(out@[i].version as int)
            &&& out@[i].assigns_colors == (out@[i].version == LAST_MIGRATION)
        },
{
    let mut out: Vec<Migration> = Vec::new();
    let mut v: i64 = FIRST_MIGRATION;
    while v <= LAST_MIGRATION
        invariant
            FIRST_MIGRATION <= v <= LAST_MIGRATION + 1,
            out@.len() + pending_from(applied@, v as int).len() == spec_pending(applied@).len(),
            forall|i: int| 0 <= i < out@.len() ==> {
                &&& (#[trigger] out@[i]).version == spec_pending(applied@)[i]
                &&& out@[i].name@ == migration_name(out@[i].version as int)
                &&& out@[i].sql@ == migration_text(out@[i].version as int)
                &&& out@[i].assigns_colors == (out@[i].version == LAST_MIGRATION)
            },
            forall|i: int| 0 <= i < pending_from(applied@, v as int).len() ==>
                spec_pending(applied@)[out@.len() + i] == #[trigger] pending_from(applied@, v as int)[i],
        decreases LAST_MIGRATION - v + 1,
    {
        let mut seen = false;
        for k in 0..applied.len()
            invariant
                seen == exists|j: int| 0 <= j < k && applied@[j] == v,
        {
            if applied[k] == v {
                seen = true;
            }
        }
        assert(seen == applied@.contains(v));
        if !seen {
            assert(pending_from(applied@, v as int)[0] == v);
            out.push(migration(v));
            assert forall|i: int| 0 <= i < pending_from(applied@, v + 1).len() implies
                spec_pending(applied@)[out@.len() + i] == #[trigger] pending_from(applied@, v + 1)[i] by {
                assert(pending_from(applied@, v as int)[i + 1] == pending_from(applied@, v + 1)[i]);
            }
        }
        v = v + 1;
    }
    out
}

/// Running the migrations not yet recorded in `applied`, and recording them, leaves none to
/// run: every migration runs once. Each one still to run is known, not recorded yet, and they
/// run in strictly ascending order.
pub proof fn law_migrations_run_once(applied: Seq<i64>)
    ensures
        spec_pending(applied + spec_pending(applied)).len() == 0,
        forall|i: int| 0 <= i < spec_pending(applied).len() ==> {
            &&& FIRST_MIGRATION <= #[trigger] spec_pending(applied)[i] <= LAST_MIGRATION
            &&& !applied.contains(spec_pending(applied)[i])
        },
        forall|i: int, j: int| 0 <= i < j < spec_pending(applied).len() ==>
            spec_pending(applied)[i] < spec_pending(applied)[j],
{
    lemma_pending_from(applied, FIRST_MIGRATION as int);
    let all = applied + spec_pending(applied);
    assert(all.take(all.len() - spec_pending(applied).len()) =~= applied);
    assert(all =~= all.take(all.len() - spec_pending(applied).len()) + spec_pending(applied));
    lemma_pending_done(all, FIRST_MIGRATION as int, spec_pending(applied));
}

proof fn lemma_pending_from(applied: Seq<i64>, from: int)
    requires
        from >= FIRST_MIGRATION,
    ensures
        forall|i: int| 0 <= i < pending_from(applied, from).len() ==> {
            &&& from <= #[trigger] pending_from(applied, from)[i] <= LAST_MIGRATION
            &&& !applied.contains(pending_from(applied, from)[i])
        },
        forall|i: int, j: int| 0 <= i < j < pending_from(applied, from).len() ==>
            pending_from(applied, from)[i] < pending_from(applied, from)[j],
        forall|v: i64| from <= v <= LAST_MIGRATION && !applied.contains(v) ==>
            #[trigger] pending_from(applied, from).contains(v),
    decreases LAST_MIGRATION - from + 1,
{
    if from <= LAST_MIGRATION {
        lemma_pending_from(applied, from + 1);
        let rest = pending_from(applied, from + 1);
        if !applied.contains(from as i64) {
            let all = seq![from as i64] + rest;
            assert forall|v: i64| from <= v <= LAST_MIGRATION && !applied.contains(v) implies
                #[trigger] all.contains(v) by {
                if v == from {
                    assert(all[0] == v);
                } else {
                    assert(rest.contains(v));
                    let k = choose|k: int| 0 <= k < rest.len() && rest[k] == v;
                    assert(all[k + 1] == v);
                }
            }
        }
    }
}

proof fn lemma_pending_done(applied: Seq<i64>, from: int, extra: Seq<i64>)
    requires
        from >= FIRST_MIGRATION,
        applied == applied.take(applied.len() - extra.len()) + extra,
        applied.len() >= extra.len(),
        forall|v: i64| from <= v <= LAST_MIGRATION && !applied.take(applied.len() - extra.len()).contains(v) ==>
            #[trigger] extra.contains(v),
    ensures
        pending_from(applied, from).len() == 0,
    decreases LAST_MIGRATION - from + 1,
{
    if from <= LAST_MIGRATION {
        let base = applied.take(applied.len() - extra.len());
        if !base.contains(from as i64) {
            assert(extra.contains(from as i64));
            let k = choose|k: int| 0 <= k < extra.len() && extra[k] == from as i64;
            assert(applied[base.len() + k] == from as i64);
        } else {
            let k = choose|k: int| 0 <= k < base.len() && base[k] == from as i64;
            assert(applied[k] == from as i64);
        }
        lemma_pending_done(applied, from + 1, extra);
    }
}

/// The default colour each existing profile is given when colours are introduced: the
/// profiles in `ids` (oldest first) take the palette in turn.
pub fn profile_color_assignments(ids: &Vec<String>) -> (out: Vec<(String, String)>)
    ensures
        out@.len() == ids@.len(),
        forall|i: int| 0 <= i < out@.len() ==> {
            &&& (#[trigger] out@[i]).0@ == ids@[i]@
            &&& out@[i].1@ == palette_color(i % 10)
        },
{
    let mut out: Vec<(String, String)> = Vec::new();
    for i in 0..ids.len()
        invariant
            out@.len() == i,
            forall|k: int| 0 <= k < i ==> {
                &&& (#[trigger] out@[k]).0@ == ids@[k]@
                &&& out@[k].1@ == palette_color(k % 10)
            },
    {
        let color = default_profile_color(i);
        out.push((ids[i].clone(), color.to_string()));
    }
    out
}

} // verus!
