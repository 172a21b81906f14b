//! Application settings: the configured games, the safety keywords and
//! per-game Safe Mode, and the rules a settings save must follow.

use vstd::prelude::*;

use crate::error::AppError;
use crate::path_rules::{components, folder_key, folder_path_key};
use crate::reconcile::types::CommittedMutationSyncWarning;
use crate::text::{concat_str, eq_ignore_case, lower, to_chars, trim, trim_str};

verus! {

/// The mod loader family a game uses.
#[derive(Debug, Clone, Copy, PartialEq, Eq, Structural)]
pub enum GameType {
    GIMI,
    ZZMI,
    WWMI,
    SRMI,
    EFMI,
}

/// One configured game. Paths are held as text; `launch_mode` is held in
/// its persisted form.
#[derive(Debug, Clone, PartialEq, Eq)]
pub struct GameConfig {
    pub id: String,
    pub name: String,
    pub game_type: GameType,
    pub instance_path: String,
    pub mod_path: String,
    pub ready_to_move_path: Option<String>,
    pub launch_mode: String,
    pub game_exe: Option<String>,
    pub loader_exe: Option<String>,
    pub xxmi_launcher_exe: Option<String>,
    pub launch_args: Option<String>,
    /// Transient warnings from path validation; never persisted.
    pub warnings: Vec<String>,
}

/// The safety keywords, and the games whose runtime Safe Mode is recorded.
#[derive(Debug, Clone, PartialEq, Eq)]
pub struct SafetyConfig {
    pub keywords: Vec<String>,
    /// Per-game Safe Mode, one entry per game id.
    pub runtime_safe_mode_by_game: Vec<(String, bool)>,
}

#[derive(Debug, Clone, PartialEq, Eq)]
pub struct AiConfig {
    pub enabled: bool,
    pub has_api_key: bool,
    pub base_url: Option<String>,
}

/// Optional executables the user selected for integrations.
#[derive(Debug, Clone, PartialEq, Eq)]
pub struct ExternalToolsConfig {
    pub mod_viewer_executable: Option<String>,
}

/// Explicit consent for anonymous diagnostics.
#[derive(Debug, Clone, PartialEq, Eq)]
pub struct DiagnosticsSettings {
    pub telemetry_enabled: bool,
}

#[derive(Debug, Clone, PartialEq, Eq)]
pub struct AppSettings {
    /// Optimistic-concurrency token for whole-settings saves.
    pub revision: u64,
    pub theme: String,
    pub language: String,
    pub games: Vec<GameConfig>,
    pub active_game_id: Option<String>,
    pub safety: SafetyConfig,
    pub ai: AiConfig,
    pub auto_close_launcher: bool,
    pub external_tools: ExternalToolsConfig,
    pub diagnostics: DiagnosticsSettings,
}

/// The Safe Mode recorded for a game, if any.
pub open spec fn safe_mode_entry(entries: Seq<(String, bool)>, game_id: Seq<char>) -> Option<bool>
    decreases entries.len(),
{
    if entries.len() == 0 {
        None
    } else if entries[0].0@ == game_id {
        Some(entries[0].1)
    } else {
        safe_mode_entry(entries.drop_first(), game_id)
    }
}

/// At most one entry per game.
pub open spec fn distinct_games(entries: Seq<(String, bool)>) -> bool {
    forall|i: int, j: int| 0 <= i < j < entries.len() ==> #[trigger] entries[i].0@ != #[trigger] entries[j].0@
}

impl SafetyConfig {
    /// Whether runtime Safe Mode is on for a game; off unless recorded.
    pub fn runtime_safe_mode_for(&self, game_id: &str) -> (r: bool)
        ensures
            r == (safe_mode_entry(self.runtime_safe_mode_by_game@, game_id@) == Some(true)),
    {
        let entries = &self.runtime_safe_mode_by_game;
        let mut i: usize = 0;
        assert(entries@.skip(0) =~= entries@);
        while i < entries.len()
            invariant
                entries@ == self.runtime_safe_mode_by_game@,
                i <= entries@.len(),
                safe_mode_entry(entries@, game_id@) == safe_mode_entry(entries@.skip(i as int), game_id@),
            decreases entries@.len() - i,
        {
            proof {
                let t = entries@.skip(i as int);
                assert(t.drop_first() =~= entries@.skip(i + 1));
                assert(t[0] == entries@[i as int]);
            }
            if crate::text::str_eq(entries[i].0.as_str(), game_id) {
                proof {
                    let t = entries@.skip(i as int);
                    assert(t[0].0@ == game_id@);
                    assert(safe_mode_entry(t, game_id@) == Some(entries@[i as int].1));
                }
                return entries[i].1;
            }
            i += 1;
        }
        false
    }

    /// Records Safe Mode on for a game, or forgets the game when off.
    pub fn set_runtime_safe_mode(&mut self, game_id: String, enabled: bool)
        requires
            distinct_games(old(self).runtime_safe_mode_by_game@),
        ensures
            distinct_games(final(self).runtime_safe_mode_by_game@),
            final(self).keywords == old(self).keywords,
            safe_mode_entry(final(self).runtime_safe_mode_by_game@, game_id@) == if enabled {
                Some(true)
            } else {
                None::<bool>
            },
            forall|other: Seq<char>| other != game_id@ ==> safe_mode_entry(final(self).runtime_safe_mode_by_game@, other)
                == safe_mode_entry(old(self).runtime_safe_mode_by_game@, other),
    {
        let ghost before = self.runtime_safe_mode_by_game@;
        let mut kept: Vec<(String, bool)> = Vec::new();
        let mut i: usize = 0;
        while i < self.runtime_safe_mode_by_game.len()
            invariant
                before == self.runtime_safe_mode_by_game@,
                distinct_games(before),
                i <= before.len(),
                distinct_games(kept@),
                forall|k: int| 0 <= k < kept@.len() ==> (#[trigger] kept@[k]).0@ != game_id@,
                forall|k: int| 0 <= k < kept@.len() ==> exists|j: int| 0 <= j < i && before[j] == #[trigger] kept@[k],
                forall|other: Seq<char>| other != game_id@ ==> safe_mode_entry(kept@, other)
                    == safe_mode_entry(before.take(i as int), other),
                safe_mode_entry(kept@, game_id@) is None,
            decreases before.len() - i,
        {
            let entry = &self.runtime_safe_mode_by_game[i];
            let ghost prev = kept@;
            if entry.0 != game_id {
                kept.push((entry.0.clone(), entry.1));
                proof {
                    lemma_entry_push(prev, (entry.0, entry.1));
                    assert forall|a: int, b: int| 0 <= a < b < kept@.len() implies #[trigger] kept@[a].0@ != #[trigger] kept@[b].0@ by {
                        if b == prev.len() {
                            let j = choose|j: int| 0 <= j < i && before[j] == prev[a];
                            assert(before[j].0@ != before[i as int].0@);
                        }
                    }
                }
            }
            proof {
                lemma_entry_push(before.take(i as int), before[i as int]);
                assert(before.take(i + 1) =~= before.take(i as int).push(before[i as int]));
                assert forall|other: Seq<char>| other != game_id@ implies safe_mode_entry(kept@, other)
                    == safe_mode_entry(before.take(i + 1), other) by {
                    if before[i as int].0@ == other {
                        lemma_no_entry(before.take(i as int), other, before, i as int);
                    }
                }
                if entry.0@ != game_id@ {
                    assert(safe_mode_entry(kept@, game_id@) is None);
                }
            }
            i += 1;
        }
        proof {
            assert(before.take(before.len() as int) =~= before);
        }
        if enabled {
            let ghost prev = kept@;
            kept.push((game_id, true));
            proof {
                lemma_entry_push(prev, (game_id, true));
            }
        }
        self.runtime_safe_mode_by_game = kept;
    }
}

/// The entry for `id` after `x` is appended.
pub open spec fn entry_after_push(before: Option<bool>, x: (String, bool), id: Seq<char>) -> Option<bool> {
    match before {
        Some(b) => Some(b),
        None => if x.0@ == id {
            Some(x.1)
        } else {
            None
        },
    }
}

proof fn lemma_entry_push_one(s: Seq<(String, bool)>, x: (String, bool), id: Seq<char>)
    ensures
        safe_mode_entry(s.push(x), id) == entry_after_push(safe_mode_entry(s, id), x, id),
    decreases s.len(),
{
    let t = s.push(x);
    if s.len() > 0 {
        assert(t[0] == s[0]);
        assert(t.drop_first() =~= s.drop_first().push(x));
        lemma_entry_push_one(s.drop_first(), x, id);
        if s[0].0@ == id {
            assert(safe_mode_entry(t, id) == Some(s[0].1));
            assert(safe_mode_entry(s, id) == Some(s[0].1));
        } else {
            assert(safe_mode_entry(t, id) == safe_mode_entry(t.drop_first(), id));
            assert(safe_mode_entry(s, id) == safe_mode_entry(s.drop_first(), id));
        }
    } else {
        assert(t[0] == x);
        assert(t.drop_first() =~= Seq::<(String, bool)>::empty());
    }
}

proof fn lemma_entry_push(s: Seq<(String, bool)>, x: (String, bool))
    ensures
        forall|id: Seq<char>| #[trigger] safe_mode_entry(s.push(x), id) == entry_after_push(safe_mode_entry(s, id), x, id),
{
    assert forall|id: Seq<char>| #[trigger] safe_mode_entry(s.push(x), id) == entry_after_push(safe_mode_entry(s, id), x, id) by {
        lemma_entry_push_one(s, x, id);
    }
}

proof fn lemma_no_entry(prefix: Seq<(String, bool)>, id: Seq<char>, all: Seq<(String, bool)>, i: int)
    requires
        distinct_games(all),
        0 <= i < all.len(),
        prefix == all.take(i),
        all[i].0@ == id,
    ensures
        safe_mode_entry(prefix, id) is None,
    decreases prefix.len(),
{
    if prefix.len() > 0 {
        assert(prefix[0] == all[0]);
        assert(all[0].0@ != all[i].0@);
        let rest = all.drop_first();
        assert forall|a: int, b: int| 0 <= a < b < rest.len() implies #[trigger] rest[a].0@ != #[trigger] rest[b].0@ by {
            assert(rest[a] == all[a + 1] && rest[b] == all[b + 1]);
        }
        assert(prefix.drop_first() =~= rest.take(i - 1));
        lemma_no_entry(prefix.drop_first(), id, rest, i - 1);
    }
}

/// The keywords every new installation starts with.
pub open spec fn default_keywords() -> Seq<Seq<char>> {
    seq!["nsfw"@, "nude"@, "18+"@]
}

impl Default for SafetyConfig {
    fn default() -> (r: Self)
        ensures
            crate::sets::views(r.keywords@) == default_keywords(),
            r.runtime_safe_mode_by_game@.len() == 0,
    {
        let mut keywords: Vec<String> = Vec::new();
        keywords.push(String::from_str("nsfw"));
        keywords.push(String::from_str("nude"));
        keywords.push(String::from_str("18+"));
        assert(crate::sets::views(keywords@) =~= default_keywords());
        SafetyConfig { keywords, runtime_safe_mode_by_game: Vec::new() }
    }
}

impl Default for AppSettings {
    fn default() -> (r: Self)
        ensures
            r.revision == 0,
            r.theme@ == "dark"@,
            r.language@ == "en"@,
            r.games@.len() == 0,
            r.active_game_id is None,
            crate::sets::views(r.safety.keywords@) == default_keywords(),
            r.safety.runtime_safe_mode_by_game@.len() == 0,
            !r.ai.enabled && !r.ai.has_api_key && r.ai.base_url is None,
            !r.auto_close_launcher,
            r.external_tools.mod_viewer_executable is None,
            !r.diagnostics.telemetry_enabled,
    {
        AppSettings {
            revision: 0,
            theme: String::from_str("dark"),
            language: String::from_str("en"),
            games: Vec::new(),
            active_game_id: None,
            safety: SafetyConfig::default(),
            ai: AiConfig { enabled: false, has_api_key: false, base_url: None },
            auto_close_launcher: false,
            external_tools: ExternalToolsConfig { mod_viewer_executable: None },
            diagnostics: DiagnosticsSettings { telemetry_enabled: false },
        }
    }
}

/// The index of the first game with id `id`, or -1.
pub open spec fn game_index(games: Seq<GameConfig>, id: Seq<char>) -> int
    decreases games.len(),
{
    if games.len() == 0 {
        -1
    } else if games[0].id@ == id {
        0
    } else {
        let k = game_index(games.drop_first(), id);
        if k < 0 {
            -1
        } else {
            k + 1
        }
    }
}

proof fn lemma_game_index_bounds(games: Seq<GameConfig>, id: Seq<char>)
    ensures
        -1 <= game_index(games, id) < games.len(),
        game_index(games, id) >= 0 ==> games[game_index(games, id)].id@ == id,
        game_index(games, id) < 0 ==> forall|k: int| 0 <= k < games.len() ==> (#[trigger] games[k]).id@ != id,
    decreases games.len(),
{
    if games.len() > 0 {
        lemma_game_index_bounds(games.drop_first(), id);
        if games[0].id@ != id {
            assert forall|k: int| 0 <= k < games.len() && game_index(games, id) < 0 implies (#[trigger] games[k]).id@ != id by {
                if k > 0 {
                    assert(games[k] == games.drop_first()[k - 1]);
                }
            }
            if game_index(games, id) >= 0 {
                assert(games[game_index(games, id)] == games.drop_first()[game_index(games, id) - 1]);
            }
        }
    }
}

/// The index of the first game with id `id`.
pub fn find_game(games: &Vec<GameConfig>, id: &str) -> (r: Option<usize>)
    ensures
        r matches Some(k) ==> k == game_index(games@, id@) && k < games@.len(),
        r is None ==> game_index(games@, id@) < 0,
{
    let mut k: usize = 0;
    assert(games@.skip(0) =~= games@);
    while k < games.len()
        invariant
            k <= games@.len(),
            game_index(games@, id@) == if game_index(games@.skip(k as int), id@) < 0 { -1 } else { game_index(games@.skip(k as int), id@) + k },
        decreases games@.len() - k,
    {
        proof {
            let t = games@.skip(k as int);
            assert(t.drop_first() =~= games@.skip(k + 1));
            assert(t[0] == games@[k as int]);
        }
        if crate::text::str_eq(games[k].id.as_str(), id) {
            return Some(k);
        }
        k += 1;
    }
    assert(games@.skip(k as int).len() == 0);
    None
}

impl AppSettings {
    /// The game the active id points at, if it is still configured.
    pub fn active_game(&self) -> (r: Option<&GameConfig>)
        ensures
            match self.active_game_id {
                None => r is None,
                Some(id) => {
                    let k = game_index(self.games@, id@);
                    if k < 0 {
                        r is None
                    } else {
                        r == Some(&self.games@[k])
                    }
                },
            },
    {
        match &self.active_game_id {
            None => None,
            Some(id) => match find_game(&self.games, id.as_str()) {
                None => None,
                Some(k) => Some(&self.games[k]),
            },
        }
    }
}

/// A game as the database stores it.
#[derive(Debug)]
pub struct GameRow {
    pub id: String,
    pub name: String,
    pub game_type: GameType,
    pub path: String,
    pub mods_path: Option<String>,
    pub ready_to_move_path: Option<String>,
    pub game_exe: Option<String>,
    pub launcher_path: Option<String>,
    pub loader_exe: Option<String>,
    pub launch_mode: String,
    pub xxmi_launcher_exe: Option<String>,
    pub launch_args: Option<String>,
}

fn copy_opt(o: &Option<String>) -> (r: Option<String>)
    ensures
        r == *o,
{
    crate::reconcile::snapshot::copy_opt(o)
}

/// A stored game as configuration: the mods path falls back to the game
/// path, and the loader to the legacy launcher path.
pub fn game_row_to_config(row: GameRow) -> (r: GameConfig)
    ensures
        r.id == row.id,
        r.name == row.name,
        r.game_type == row.game_type,
        r.instance_path == row.path,
        r.mod_path@ == match row.mods_path {
            Some(m) => m@,
            None => row.path@,
        },
        r.ready_to_move_path == row.ready_to_move_path,
        r.launch_mode == row.launch_mode,
        r.game_exe == row.game_exe,
        r.loader_exe == match row.loader_exe {
            Some(l) => Some(l),
            None => row.launcher_path,
        },
        r.xxmi_launcher_exe == row.xxmi_launcher_exe,
        r.launch_args == row.launch_args,
        r.warnings@.len() == 0,
{
    let mod_path = match row.mods_path {
        Some(m) => m,
        None => row.path.clone(),
    };
    let loader_exe = match row.loader_exe {
        Some(l) => Some(l),
        None => row.launcher_path,
    };
    GameConfig {
        id: row.id,
        name: row.name,
        game_type: row.game_type,
        instance_path: row.path,
        mod_path,
        ready_to_move_path: row.ready_to_move_path,
        launch_mode: row.launch_mode,
        game_exe: row.game_exe,
        loader_exe,
        xxmi_launcher_exe: row.xxmi_launcher_exe,
        launch_args: row.launch_args,
        warnings: Vec::new(),
    }
}

/// A configured game as the database stores it: an empty instance path is
/// stored as the mods path, and the loader is stored in both columns.
pub fn config_to_game_row(config: &GameConfig) -> (r: GameRow)
    ensures
        r.id == config.id,
        r.name == config.name,
        r.game_type == config.game_type,
        r.path@ == if config.instance_path@.len() == 0 { config.mod_path@ } else { config.instance_path@ },
        r.mods_path == Some(config.mod_path),
        r.ready_to_move_path == config.ready_to_move_path,
        r.game_exe == config.game_exe,
        r.launcher_path == config.loader_exe,
        r.loader_exe == config.loader_exe,
        r.launch_mode == config.launch_mode,
        r.xxmi_launcher_exe == config.xxmi_launcher_exe,
        r.launch_args == config.launch_args,
{
    let path = if config.instance_path.as_str().is_empty() {
        config.mod_path.clone()
    } else {
        config.instance_path.clone()
    };
    GameRow {
        id: config.id.clone(),
        name: config.name.clone(),
        game_type: config.game_type,
        path,
        mods_path: Some(config.mod_path.clone()),
        ready_to_move_path: copy_opt(&config.ready_to_move_path),
        game_exe: copy_opt(&config.game_exe),
        launcher_path: copy_opt(&config.loader_exe),
        loader_exe: copy_opt(&config.loader_exe),
        launch_mode: config.launch_mode.clone(),
        xxmi_launcher_exe: copy_opt(&config.xxmi_launcher_exe),
        launch_args: copy_opt(&config.launch_args),
    }
}

/// The lowercase form of a string under Unicode case mapping
/// (`str::to_lowercase`).
pub uninterp spec fn unicode_lowercase(s: Seq<char>) -> Seq<char>;

/// Calls `str::to_lowercase`. The contract names its result: a function of
/// the text alone.
#[verifier::external_body]
fn to_lowercase_text(s: &str) -> (r: String)
    ensures
        r@ == unicode_lowercase(s@),
{
    s.to_lowercase()
}

/// Each keyword trimmed and lowercased, blank and repeated ones dropped,
/// in first-seen order.
pub open spec fn normalized_keywords(keywords: Seq<Seq<char>>) -> Seq<Seq<char>>
    decreases keywords.len(),
{
    if keywords.len() == 0 {
        Seq::<Seq<char>>::empty()
    } else {
        let done = normalized_keywords(keywords.drop_last());
        let next = unicode_lowercase(trim(keywords.last()));
        if next.len() == 0 || done.contains(next) {
            done
        } else {
            done.push(next)
        }
    }
}

/// The keywords as they are stored.
pub fn normalize_keywords(keywords: &Vec<String>) -> (r: Vec<String>)
    ensures
        crate::sets::views(r@) == normalized_keywords(crate::sets::views(keywords@)),
{
    let mut out: Vec<String> = Vec::new();
    let mut i: usize = 0;
    while i < keywords.len()
        invariant
            i <= keywords@.len(),
            crate::sets::views(out@) == normalized_keywords(crate::sets::views(keywords@).take(i as int)),
        decreases keywords@.len() - i,
    {
        proof {
            let v = crate::sets::views(keywords@);
            assert(v.take(i + 1).drop_last() =~= v.take(i as int));
            assert(v.take(i + 1).last() == keywords@[i as int]@);
        }
        let trimmed = trim_str(keywords[i].as_str());
        let next = to_lowercase_text(trimmed.as_str());
        if !next.as_str().is_empty() && !crate::sets::contains_text(&out, &next) {
            let ghost before = out@;
            out.push(next);
            proof {
                crate::sets::lemma_views_push(before, next);
            }
        }
        i += 1;
    }
    assert(crate::sets::views(keywords@).take(keywords@.len() as int) =~= crate::sets::views(keywords@));
    out
}

/// Stored keywords hold no blank keyword and no keyword twice.
pub proof fn law_normalized_keywords_are_distinct_and_nonblank(keywords: Seq<Seq<char>>)
    ensures
        forall|i: int| 0 <= i < normalized_keywords(keywords).len() ==> #[trigger] normalized_keywords(keywords)[i].len() > 0,
        forall|i: int, j: int| 0 <= i < j < normalized_keywords(keywords).len()
            ==> #[trigger] normalized_keywords(keywords)[i] != #[trigger] normalized_keywords(keywords)[j],
    decreases keywords.len(),
{
    if keywords.len() > 0 {
        law_normalized_keywords_are_distinct_and_nonblank(keywords.drop_last());
        let done = normalized_keywords(keywords.drop_last());
        let next = unicode_lowercase(trim(keywords.last()));
        if !(next.len() == 0 || done.contains(next)) {
            let n = done.push(next);
            assert forall|i: int, j: int| 0 <= i < j < n.len() implies #[trigger] n[i] != #[trigger] n[j] by {
                if j == done.len() {
                    assert(done[i] == n[i]);
                    if n[i] == next {
                        assert(done.contains(next));
                    }
                }
            }
        }
    }
}

pub open spec fn duplicate_game_message(id: Seq<char>) -> Seq<char> {
    "Settings contain duplicate game id '"@ + id + "'"@
}

/// An earlier game with the same id as game `j`, if any.
fn earlier_same_id(games: &Vec<GameConfig>, j: usize) -> (r: Option<usize>)
    requires
        j < games@.len(),
    ensures
        r matches Some(i) ==> i < j && games@[i as int].id@ == games@[j as int].id@,
        r is None ==> forall|i: int| 0 <= i < j ==> games@[i].id@ != games@[j as int].id@,
{
    let mut i: usize = 0;
    while i < j
        invariant
            j < games@.len(),
            i <= j,
            forall|k: int| 0 <= k < i ==> games@[k].id@ != games@[j as int].id@,
        decreases j - i,
    {
        if games[i].id == games[j].id {
            return Some(i);
        }
        i += 1;
    }
    None
}

/// No two games share an id.
pub open spec fn ids_distinct(games: Seq<GameConfig>) -> bool {
    forall|i: int, j: int| 0 <= i < j < games.len() ==> #[trigger] games[i].id@ != #[trigger] games[j].id@
}

/// Game `j` is the first game whose id an earlier game already has.
pub open spec fn first_repeat_at(games: Seq<GameConfig>, j: int) -> bool {
    &&& 0 <= j < games.len()
    &&& exists|i: int| 0 <= i < j && #[trigger] games[i].id@ == games[j].id@
    &&& ids_distinct(games.take(j))
}

proof fn lemma_distinct_step(games: Seq<GameConfig>, j: int)
    requires
        0 <= j < games.len(),
        ids_distinct(games.take(j)),
        forall|i: int| 0 <= i < j ==> games[i].id@ != games[j].id@,
    ensures
        ids_distinct(games.take(j + 1)),
{
    let t = games.take(j + 1);
    assert forall|a: int, b: int| 0 <= a < b < t.len() implies #[trigger] t[a].id@ != #[trigger] t[b].id@ by {
        if b < j {
            assert(games.take(j)[a] == t[a] && games.take(j)[b] == t[b]);
        } else {
            assert(t[b] == games[j] && t[a] == games[a]);
        }
    }
}

/// Refuses settings in which two games share an id, naming the first
/// repeated one.
pub fn ensure_unique_game_ids(settings: &AppSettings) -> (r: Result<(), AppError>)
    ensures
        r is Ok <==> ids_distinct(settings.games@),
        r is Err ==> exists|j: int| #[trigger] first_repeat_at(settings.games@, j)
            && (r matches Err(AppError::Validation(msg)) && msg@ == duplicate_game_message(settings.games@[j].id@)),
{
    let ghost games = settings.games@;
    let mut j: usize = 0;
    assert(ids_distinct(games.take(0)));
    while j < settings.games.len()
        invariant
            games == settings.games@,
            j <= games.len(),
            ids_distinct(games.take(j as int)),
        decreases games.len() - j,
    {
        match earlier_same_id(&settings.games, j) {
            Some(i) => {
                let head = concat_str("Settings contain duplicate game id '", settings.games[j].id.as_str());
                let msg = concat_str(head.as_str(), "'");
                let r: Result<(), AppError> = Err(AppError::Validation(msg));
                proof {
                    let jj = j as int;
                    assert(games[i as int].id@ == games[jj].id@);
                    assert(first_repeat_at(games, jj));
                    assert(!ids_distinct(games));
                }
                return r;
            },
            None => {
                proof {
                    lemma_distinct_step(games, j as int);
                }
            },
        }
        j += 1;
    }
    assert(games.take(j as int) =~= games);
    Ok(())
}

pub open spec fn mods_directory_locked_message() -> Seq<char> {
    "Use source recovery to change an existing game's mods directory"@
}

/// Some existing game keeps its id but its mods path gets another key.
pub open spec fn mod_path_changed(current: Seq<GameConfig>, requested: Seq<GameConfig>) -> bool {
    exists|i: int| 0 <= i < current.len() && {
        let k = #[trigger] game_index(requested, current[i].id@);
        k >= 0 && folder_key(current[i].mod_path@) != folder_key(requested[k].mod_path@)
    }
}

/// A whole-settings save cannot move an existing game's mods directory.
pub fn ensure_existing_mod_paths_unchanged(current: &AppSettings, requested: &AppSettings) -> (r: Result<(), AppError>)
    ensures
        r is Ok <==> !mod_path_changed(current.games@, requested.games@),
        r is Err ==> (r matches Err(AppError::Validation(m)) && m@ == mods_directory_locked_message()),
{
    let mut i: usize = 0;
    while i < current.games.len()
        invariant
            i <= current.games@.len(),
            forall|x: int| 0 <= x < i ==> {
                let k = #[trigger] game_index(requested.games@, current.games@[x].id@);
                !(k >= 0 && folder_key(current.games@[x].mod_path@) != folder_key(requested.games@[k].mod_path@))
            },
        decreases current.games@.len() - i,
    {
        let existing = &current.games[i];
        match find_game(&requested.games, existing.id.as_str()) {
            None => {},
            Some(k) => {
                let old_key = folder_path_key(existing.mod_path.as_str());
                let new_key = folder_path_key(requested.games[k].mod_path.as_str());
                if old_key != new_key {
                    return Err(AppError::Validation(String::from_str(
                        "Use source recovery to change an existing game's mods directory",
                    )));
                }
            },
        }
        i += 1;
    }
    Ok(())
}

pub open spec fn stale_settings_message() -> Seq<char> {
    "Settings changed since this screen was loaded. Refresh and retry your edit."@
}

pub open spec fn active_game_guard_message() -> Seq<char> {
    "Use the active-game command to change the active game safely"@
}

/// Whether the active id names a configured game.
pub open spec fn active_id_valid(games: Seq<GameConfig>, active: Option<String>) -> bool {
    match active {
        None => true,
        Some(id) => game_index(games, id@) >= 0,
    }
}

fn same_opt_text(a: &Option<String>, b: &Option<String>) -> (r: bool)
    ensures
        r == match (a, b) {
            (None, None) => true,
            (Some(x), Some(y)) => x@ == y@,
            _ => false,
        },
{
    match (a, b) {
        (None, None) => true,
        (Some(x), Some(y)) => *x == *y,
        _ => false,
    }
}

/// The settings a whole-settings save stores, or why it is refused: a stale
/// revision, a changed active game, repeated game ids or a moved mods
/// directory. The stored API-key flag and per-game Safe Mode survive the
/// save, and an active id that names no game is cleared.
pub fn prepare_settings_save(current: &AppSettings, new_settings: AppSettings) -> (r: Result<AppSettings, AppError>)
    ensures
        new_settings.revision != current.revision ==> (r matches Err(AppError::Validation(m)) && m@ == stale_settings_message()),
        new_settings.revision == current.revision && !(match (new_settings.active_game_id, current.active_game_id) {
            (None, None) => true,
            (Some(x), Some(y)) => x@ == y@,
            _ => false,
        }) ==> (r matches Err(AppError::Validation(m)) && m@ == active_game_guard_message()),
        new_settings.revision == current.revision && (match (new_settings.active_game_id, current.active_game_id) {
            (None, None) => true,
            (Some(x), Some(y)) => x@ == y@,
            _ => false,
        }) && !ids_distinct(new_settings.games@) ==> exists|j: int| #[trigger] first_repeat_at(new_settings.games@, j)
            && (r matches Err(AppError::Validation(m)) && m@ == duplicate_game_message(new_settings.games@[j].id@)),
        new_settings.revision == current.revision && (match (new_settings.active_game_id, current.active_game_id) {
            (None, None) => true,
            (Some(x), Some(y)) => x@ == y@,
            _ => false,
        }) && ids_distinct(new_settings.games@) && mod_path_changed(current.games@, new_settings.games@) ==> (r matches Err(
            AppError::Validation(m),
        ) && m@ == mods_directory_locked_message()),
        r matches Ok(s) ==> {
            &&& new_settings.revision == current.revision
            &&& ids_distinct(new_settings.games@)
            &&& !mod_path_changed(current.games@, new_settings.games@)
            &&& s.revision == new_settings.revision
            &&& s.theme == new_settings.theme
            &&& s.language == new_settings.language
            &&& s.games == new_settings.games
            &&& s.safety.keywords == new_settings.safety.keywords
            &&& s.safety.runtime_safe_mode_by_game@ == current.safety.runtime_safe_mode_by_game@
            &&& s.ai.enabled == new_settings.ai.enabled
            &&& s.ai.base_url == new_settings.ai.base_url
            &&& s.ai.has_api_key == current.ai.has_api_key
            &&& s.auto_close_launcher == new_settings.auto_close_launcher
            &&& s.external_tools == new_settings.external_tools
            &&& s.diagnostics == new_settings.diagnostics
            &&& s.active_game_id == if active_id_valid(new_settings.games@, new_settings.active_game_id) {
                new_settings.active_game_id
            } else {
                None
            }
        },
        new_settings.revision == current.revision && (match (new_settings.active_game_id, current.active_game_id) {
            (None, None) => true,
            (Some(x), Some(y)) => x@ == y@,
            _ => false,
        }) && ids_distinct(new_settings.games@)
            && !mod_path_changed(current.games@, new_settings.games@) ==> r is Ok,
{
    if new_settings.revision != current.revision {
        return Err(AppError::Validation(String::from_str(
            "Settings changed since this screen was loaded. Refresh and retry your edit.",
        )));
    }
    if !same_opt_text(&new_settings.active_game_id, &current.active_game_id) {
        return Err(AppError::Validation(String::from_str(
            "Use the active-game command to change the active game safely",
        )));
    }
    match ensure_unique_game_ids(&new_settings) {
        Err(e) => return Err(e),
        Ok(()) => {},
    }
    match ensure_existing_mod_paths_unchanged(current, &new_settings) {
        Err(e) => return Err(e),
        Ok(()) => {},
    }
    let mut kept: Vec<(String, bool)> = Vec::new();
    let mut i: usize = 0;
    while i < current.safety.runtime_safe_mode_by_game.len()
        invariant
            i <= current.safety.runtime_safe_mode_by_game@.len(),
            kept@.len() == i,
            forall|k: int| 0 <= k < i ==> #[trigger] kept@[k] == current.safety.runtime_safe_mode_by_game@[k],
        decreases current.safety.runtime_safe_mode_by_game@.len() - i,
    {
        let entry = &current.safety.runtime_safe_mode_by_game[i];
        kept.push((entry.0.clone(), entry.1));
        i += 1;
    }
    assert(kept@ =~= current.safety.runtime_safe_mode_by_game@);
    let AppSettings {
        revision,
        theme,
        language,
        games,
        active_game_id,
        safety,
        ai,
        auto_close_launcher,
        external_tools,
        diagnostics,
    } = new_settings;
    let active_valid = match &active_game_id {
        None => true,
        Some(id) => find_game(&games, id.as_str()).is_some(),
    };
    let active_game_id = if active_valid {
        active_game_id
    } else {
        None
    };
    Ok(AppSettings {
        revision,
        theme,
        language,
        games,
        active_game_id,
        safety: SafetyConfig { keywords: safety.keywords, runtime_safe_mode_by_game: kept },
        ai: AiConfig { enabled: ai.enabled, has_api_key: current.ai.has_api_key, base_url: ai.base_url },
        auto_close_launcher,
        external_tools,
        diagnostics,
    })
}

pub open spec fn settings_not_authoritative_message() -> Seq<char> {
    "Settings were not loaded authoritatively; restart or repair the database before saving"@
}

/// Settings are written only after they were loaded authoritatively from
/// the database; otherwise a write could overwrite rows it never read.
pub fn ensure_settings_authoritative(authoritative: bool) -> (r: Result<(), AppError>)
    ensures
        authoritative ==> r is Ok,
        !authoritative ==> (r matches Err(AppError::Db(m)) && m@ == settings_not_authoritative_message()),
{
    if !authoritative {
        return Err(AppError::Db(String::from_str(
            "Settings were not loaded authoritatively; restart or repair the database before saving",
        )));
    }
    Ok(())
}

pub open spec fn revision_overflow_message() -> Seq<char> {
    "Settings revision counter overflowed"@
}

/// The ids of the current games that the next settings no longer hold, in
/// order.
pub open spec fn removed_game_ids(current: Seq<GameConfig>, next: Seq<GameConfig>) -> Seq<Seq<char>> {
    current.filter(|g: GameConfig| game_index(next, g.id@) < 0).map_values(|g: GameConfig| g.id@)
}

/// Completes a settings update: the revision moves on by one and the
/// keywords are normalized; also gives the ids of the removed games.
pub fn commit_settings(current: &AppSettings, next: AppSettings) -> (r: Result<(AppSettings, Vec<String>), AppError>)
    ensures
        current.revision == u64::MAX ==> (r matches Err(AppError::Internal(m)) && m@ == revision_overflow_message()),
        current.revision < u64::MAX ==> (r matches Ok((s, removed)) && {
            &&& s.revision == current.revision + 1
            &&& crate::sets::views(s.safety.keywords@) == normalized_keywords(crate::sets::views(next.safety.keywords@))
            &&& s.safety.runtime_safe_mode_by_game == next.safety.runtime_safe_mode_by_game
            &&& s.theme == next.theme && s.language == next.language && s.games == next.games
            &&& s.active_game_id == next.active_game_id && s.ai == next.ai
            &&& s.auto_close_launcher == next.auto_close_launcher
            &&& s.external_tools == next.external_tools && s.diagnostics == next.diagnostics
            &&& crate::sets::views(removed@) == removed_game_ids(current.games@, next.games@)
        }),
{
    if current.revision == u64::MAX {
        return Err(AppError::Internal(String::from_str("Settings revision counter overflowed")));
    }
    let mut removed: Vec<String> = Vec::new();
    let mut i: usize = 0;
    while i < current.games.len()
        invariant
            i <= current.games@.len(),
            crate::sets::views(removed@) == removed_game_ids(current.games@.take(i as int), next.games@),
        decreases current.games@.len() - i,
    {
        proof {
            reveal(Seq::filter);
            let t = current.games@.take(i + 1);
            assert(t.drop_last() =~= current.games@.take(i as int));
            assert(t.last() == current.games@[i as int]);
        }
        let gone = find_game(&next.games, current.games[i].id.as_str()).is_none();
        if gone {
            let ghost before = removed@;
            let id = current.games[i].id.clone();
            removed.push(id);
            proof {
                crate::sets::lemma_views_push(before, id);
                let f = current.games@.take(i as int).filter(|g: GameConfig| game_index(next.games@, g.id@) < 0);
                assert(f.push(current.games@[i as int]).map_values(|g: GameConfig| g.id@)
                    =~= f.map_values(|g: GameConfig| g.id@).push(id@));
            }
        }
        i += 1;
    }
    assert(current.games@.take(current.games@.len() as int) =~= current.games@);
    let keywords = normalize_keywords(&next.safety.keywords);
    let AppSettings { revision: _, theme, language, games, active_game_id, safety, ai, auto_close_launcher, external_tools, diagnostics } = next;
    let settings = AppSettings {
        revision: current.revision + 1,
        theme,
        language,
        games,
        active_game_id,
        safety: SafetyConfig { keywords, runtime_safe_mode_by_game: safety.runtime_safe_mode_by_game },
        ai,
        auto_close_launcher,
        external_tools,
        diagnostics,
    };
    Ok((settings, removed))
}

pub open spec fn game_not_found_message(id: Seq<char>) -> Seq<char> {
    "Game "@ + id + " not found"@
}

/// Records Safe Mode for a configured game; refused for an unknown game.
pub fn set_runtime_safe_mode_for_game(settings: &mut AppSettings, game_id: &str, enabled: bool) -> (r: Result<(), AppError>)
    requires
        distinct_games(old(settings).safety.runtime_safe_mode_by_game@),
    ensures
        game_index(old(settings).games@, game_id@) < 0 ==> (r matches Err(AppError::NotFound(m)) && m@ == game_not_found_message(game_id@))
            && *final(settings) == *old(settings),
        game_index(old(settings).games@, game_id@) >= 0 ==> r is Ok
            && distinct_games(final(settings).safety.runtime_safe_mode_by_game@)
            && safe_mode_entry(final(settings).safety.runtime_safe_mode_by_game@, game_id@) == (if enabled { Some(true) } else { None::<bool> })
            && final(settings).games == old(settings).games,
{
    if find_game(&settings.games, game_id).is_none() {
        let head = concat_str("Game ", game_id);
        return Err(AppError::NotFound(concat_str(head.as_str(), " not found")));
    }
    settings.safety.set_runtime_safe_mode(String::from_str(game_id), enabled);
    Ok(())
}

/// Whether a game's loader family can open the 3DMigoto Mod Viewer.
pub open spec fn mod_viewer_supported(game_type: GameType) -> bool {
    game_type != GameType::EFMI
}

pub open spec fn mod_viewer_unsupported_message() -> Seq<char> {
    "3DMigoto Mod Viewer is not available for EFMI"@
}

pub fn ensure_mod_viewer_supports(game_type: GameType) -> (r: Result<(), AppError>)
    ensures
        r is Ok <==> mod_viewer_supported(game_type),
        r is Err ==> (r matches Err(AppError::Validation(m)) && m@ == mod_viewer_unsupported_message()),
{
    match game_type {
        GameType::GIMI | GameType::ZZMI | GameType::WWMI | GameType::SRMI => Ok(()),
        GameType::EFMI => Err(AppError::Validation(String::from_str("3DMigoto Mod Viewer is not available for EFMI"))),
    }
}

/// The index of the last `.` of `s`, or -1.
pub open spec fn last_dot(s: Seq<char>) -> int
    decreases s.len(),
{
    if s.len() == 0 {
        -1
    } else if s.last() == '.' {
        s.len() - 1
    } else {
        last_dot(s.drop_last())
    }
}

/// The extension of a path's last component (`Path::extension`): the text
/// after its last `.`, unless that `.` starts the name.
pub open spec fn extension_of(path: Seq<char>) -> Option<Seq<char>> {
    let comps = components(path);
    if comps.len() == 0 || comps.last() == ".."@ {
        None
    } else {
        let name = comps.last();
        let d = last_dot(name);
        if d <= 0 {
            None
        } else {
            Some(name.subrange(d + 1, name.len() as int))
        }
    }
}

/// The extension of a path's last component.
pub fn path_extension(path: &str) -> (r: Option<String>)
    ensures
        match r {
            Some(e) => extension_of(path@) == Some(e@),
            None => extension_of(path@) is None,
        },
{
    let chars = to_chars(path);
    let comps = crate::path_rules::path_components(chars.as_slice());
    if comps.len() == 0 {
        return None;
    }
    let name = &comps[comps.len() - 1];
    let dots = to_chars("..");
    proof {
        reveal_strlit("..");
        assert(comps@[comps@.len() - 1]@ == components(path@).last());
    }
    if crate::text::chars_eq(name.as_slice(), dots.as_slice()) {
        return None;
    }
    let mut i: usize = name.len();
    assert(name@.take(i as int) =~= name@);
    while i > 0 && name[i - 1] != '.'
        invariant
            i <= name@.len(),
            last_dot(name@.take(i as int)) == last_dot(name@),
        decreases i,
    {
        proof {
            assert(name@.take(i as int).drop_last() =~= name@.take(i - 1));
            assert(name@.take(i as int).last() == name@[i - 1]);
        }
        i -= 1;
    }
    proof {
        if i > 0 {
            assert(name@.take(i as int).last() == name@[i - 1]);
            assert(last_dot(name@.take(i as int)) == i - 1);
        } else {
            assert(last_dot(name@.take(0)) == -1);
        }
    }
    if i <= 1 {
        return None;
    }
    let ext = crate::text::tail_from(name.as_slice(), i);
    Some(crate::text::from_chars(ext.as_slice()))
}

pub open spec fn viewer_not_absolute_message() -> Seq<char> {
    "3DMigoto Mod Viewer executable path must be absolute"@
}

pub open spec fn viewer_not_found_message(path: Seq<char>) -> Seq<char> {
    "3DMigoto Mod Viewer executable not found at: "@ + path
}

pub open spec fn viewer_not_exe_message(path: Seq<char>) -> Seq<char> {
    "3DMigoto Mod Viewer executable must be a .exe file: "@ + path
}

/// A Mod Viewer executable must be an absolute path to an existing `.exe`
/// file. Whether the path is absolute and names a file is read from disk
/// by the caller.
pub fn validate_mod_viewer_executable(path: &str, is_absolute: bool, is_file: bool) -> (r: Result<(), AppError>)
    ensures
        !is_absolute ==> (r matches Err(AppError::Validation(m)) && m@ == viewer_not_absolute_message()),
        is_absolute && !is_file ==> (r matches Err(AppError::NotFound(m)) && m@ == viewer_not_found_message(path@)),
        is_absolute && is_file ==> (r is Ok <==> (extension_of(path@) matches Some(e) && eq_ignore_case(e, "exe"@))),
        is_absolute && is_file && r is Err ==> (r matches Err(AppError::Validation(m)) && m@ == viewer_not_exe_message(path@)),
{
    if !is_absolute {
        return Err(AppError::Validation(String::from_str("3DMigoto Mod Viewer executable path must be absolute")));
    }
    if !is_file {
        return Err(AppError::NotFound(concat_str("3DMigoto Mod Viewer executable not found at: ", path)));
    }
    let exe = to_chars("exe");
    proof {
        reveal_strlit("exe");
    }
    let ok = match path_extension(path) {
        Some(e) => crate::text::chars_eq_ignore_case(to_chars(e.as_str()).as_slice(), exe.as_slice()),
        None => false,
    };
    if !ok {
        return Err(AppError::Validation(concat_str("3DMigoto Mod Viewer executable must be a .exe file: ", path)));
    }
    Ok(())
}

pub open spec fn viewer_not_configured_message() -> Seq<char> {
    "3DMigoto Mod Viewer is not configured. Select its executable in Settings > Integrations."@
}

pub open spec fn game_missing_message(id: Seq<char>) -> Seq<char> {
    "Game not found: "@ + id
}

/// The configured Mod Viewer executable and the loader family of a game.
pub fn mod_viewer_launch_inputs(settings: &AppSettings, game_id: &str) -> (r: Result<(String, GameType), AppError>)
    ensures
        settings.external_tools.mod_viewer_executable is None ==> (r matches Err(AppError::Validation(m)) && m@ == viewer_not_configured_message()),
        settings.external_tools.mod_viewer_executable matches Some(exe) ==> {
            let k = game_index(settings.games@, game_id@);
            &&& k < 0 ==> (r matches Err(AppError::NotFound(m)) && m@ == game_missing_message(game_id@))
            &&& k >= 0 ==> (r matches Ok((e, t)) && e == exe && t == settings.games@[k].game_type)
        },
{
    let executable = match &settings.external_tools.mod_viewer_executable {
        None => {
            return Err(AppError::Validation(String::from_str(
                "3DMigoto Mod Viewer is not configured. Select its executable in Settings > Integrations.",
            )));
        },
        Some(e) => e.clone(),
    };
    match find_game(&settings.games, game_id) {
        None => Err(AppError::NotFound(concat_str("Game not found: ", game_id))),
        Some(k) => Ok((executable, settings.games[k].game_type)),
    }
}

/// One direct entry of a mod folder: whether it is a file, and its name.
pub open spec fn ini_entry(is_file: bool, name: Seq<char>) -> bool {
    is_file && (extension_of(name) matches Some(e) && eq_ignore_case(e, "ini"@))
}

/// A disabled ini: its name begins with `DISABLED`, ignoring case.
pub open spec fn disabled_name(name: Seq<char>) -> bool {
    crate::text::has_prefix(lower(name), "disabled"@)
}

/// Some direct entry is an active ini file.
pub open spec fn any_active_ini(entries: Seq<(bool, String)>) -> bool {
    exists|i: int| 0 <= i < entries.len() && ini_entry(entries[i].0, entries[i].1@) && !disabled_name(entries[i].1@)
}

/// Whether to pass `--disabled-ini`: some direct file is a disabled ini,
/// and none is an active ini.
pub open spec fn disabled_ini_only(entries: Seq<(bool, String)>) -> bool {
    &&& !any_active_ini(entries)
    &&& exists|i: int| 0 <= i < entries.len() && ini_entry(entries[i].0, entries[i].1@) && disabled_name(entries[i].1@)
}

fn ini_flags(is_file: bool, name: &String) -> (r: (bool, bool))
    ensures
        r.0 == ini_entry(is_file, name@),
        r.1 == disabled_name(name@),
{
    let ini = to_chars("ini");
    let marker = to_chars("disabled");
    proof {
        reveal_strlit("ini");
        reveal_strlit("disabled");
    }
    let is_ini = is_file && match path_extension(name.as_str()) {
        Some(e) => crate::text::chars_eq_ignore_case(to_chars(e.as_str()).as_slice(), ini.as_slice()),
        None => false,
    };
    let lowered = crate::text::lower_chars(to_chars(name.as_str()).as_slice());
    let disabled = crate::text::starts_with(lowered.as_slice(), marker.as_slice());
    (is_ini, disabled)
}

/// Decides the disabled-ini launch flag from the folder's direct entries.
pub fn should_pass_disabled_ini(entries: &Vec<(bool, String)>) -> (r: bool)
    ensures
        r == disabled_ini_only(entries@),
{
    let mut has_disabled = false;
    let mut i: usize = 0;
    while i < entries.len()
        invariant
            i <= entries@.len(),
            forall|k: int| 0 <= k < i ==> !(ini_entry(entries@[k].0, entries@[k].1@) && !disabled_name(entries@[k].1@)),
            has_disabled == exists|k: int| 0 <= k < i && ini_entry(entries@[k].0, entries@[k].1@) && disabled_name(entries@[k].1@),
        decreases entries@.len() - i,
    {
        let (is_ini, disabled) = ini_flags(entries[i].0, &entries[i].1);
        if is_ini {
            if disabled {
                has_disabled = true;
            } else {
                return false;
            }
        }
        i += 1;
    }
    has_disabled
}

pub open spec fn empty_key_message() -> Seq<char> {
    "AI API key cannot be empty"@
}

pub open spec fn long_key_message() -> Seq<char> {
    "AI API key exceeds the maximum supported length"@
}

pub open spec fn nul_key_message() -> Seq<char> {
    "AI API key contains an invalid null character"@
}

/// An API key is stored trimmed; it must not be empty, longer than 8192
/// bytes, or hold a NUL character.
pub fn validate_ai_api_key(api_key: &str) -> (r: Result<String, AppError>)
    ensures
        trim(api_key@).len() == 0 ==> (r matches Err(AppError::Validation(m)) && m@ == empty_key_message()),
        trim(api_key@).len() > 0 && vstd::utf8::encode_utf8(trim(api_key@)).len() > 8192 ==> (r matches Err(AppError::Validation(m)) && m@ == long_key_message()),
        trim(api_key@).len() > 0 && vstd::utf8::encode_utf8(trim(api_key@)).len() <= 8192 && trim(api_key@).contains('\0')
            ==> (r matches Err(AppError::Validation(m)) && m@ == nul_key_message()),
        trim(api_key@).len() > 0 && vstd::utf8::encode_utf8(trim(api_key@)).len() <= 8192 && !trim(api_key@).contains('\0')
            ==> (r matches Ok(k) && k@ == trim(api_key@)),
{
    let key = trim_str(api_key);
    let chars = to_chars(key.as_str());
    if chars.len() == 0 {
        return Err(AppError::Validation(String::from_str("AI API key cannot be empty")));
    }
    let bytes = crate::digest::utf8_bytes(key.as_str());
    if bytes.len() > 8192 {
        return Err(AppError::Validation(String::from_str("AI API key exceeds the maximum supported length")));
    }
    let mut i: usize = 0;
    while i < chars.len()
        invariant
            i <= chars@.len(),
            chars@ == trim(api_key@),
            key@ == trim(api_key@),
            chars@.len() > 0,
            vstd::utf8::encode_utf8(trim(api_key@)).len() <= 8192,
            forall|k: int| 0 <= k < i ==> chars@[k] != '\0',
        decreases chars@.len() - i,
    {
        if chars[i] == '\0' {
            return Err(AppError::Validation(String::from_str("AI API key contains an invalid null character")));
        }
        i += 1;
    }
    Ok(key)
}

/// A settings save, with the warning of a follow-up reconcile that failed
/// after the settings were committed.
#[derive(Debug)]
pub struct SaveSettingsResult {
    pub settings: AppSettings,
    pub sync_warning: Option<CommittedMutationSyncWarning>,
}

/// A committed save stays a success; a failed follow-up reconcile is
/// reported beside it.
pub fn completed_settings_save(settings: AppSettings, sync_warning: Option<CommittedMutationSyncWarning>) -> (r: SaveSettingsResult)
    ensures
        r.settings == settings,
        r.sync_warning == sync_warning,
{
    SaveSettingsResult { settings, sync_warning }
}

/// The endpoint tested when none is configured.
pub open spec fn default_ai_base_url() -> Seq<char> {
    "https://api.openai.com/v1"@
}

/// The configured AI base URL, trimmed, or the default when blank.
pub fn ai_base_url(configured: &Option<String>) -> (r: String)
    ensures
        r@ == match configured {
            Some(u) => if trim(u@).len() > 0 { trim(u@) } else { default_ai_base_url() },
            None => default_ai_base_url(),
        },
{
    match configured {
        Some(u) => {
            let t = trim_str(u.as_str());
            if to_chars(t.as_str()).len() > 0 {
                t
            } else {
                String::from_str("https://api.openai.com/v1")
            }
        },
        None => String::from_str("https://api.openai.com/v1"),
    }
}

pub open spec fn ai_scheme_message() -> Seq<char> {
    "AI base URL must use HTTP or HTTPS"@
}

pub open spec fn ai_credentials_message() -> Seq<char> {
    "AI base URL must not contain embedded credentials"@
}

pub open spec fn ai_https_message() -> Seq<char> {
    "AI base URL must use HTTPS unless it targets localhost"@
}

/// An AI endpoint must use HTTP(S), carry no credentials, and use HTTPS
/// unless it targets this machine. The URL's parts come from the caller's
/// parse; `host_is_loopback_ip` says whether the host is a loopback address.
pub fn check_ai_endpoint(
    scheme: &str,
    has_username: bool,
    has_password: bool,
    host: &str,
    host_is_loopback_ip: bool,
) -> (r: Result<(), AppError>)
    ensures
        !(scheme@ == "http"@ || scheme@ == "https"@) ==> (r matches Err(AppError::Validation(m)) && m@ == ai_scheme_message()),
        (scheme@ == "http"@ || scheme@ == "https"@) && (has_username || has_password) ==> (r matches Err(
            AppError::Validation(m),
        ) && m@ == ai_credentials_message()),
        (scheme@ == "http"@ || scheme@ == "https"@) && !has_username && !has_password ==> (r is Ok <==> (scheme@ == "https"@
            || eq_ignore_case(host@, "localhost"@) || host_is_loopback_ip)),
        (scheme@ == "http"@ || scheme@ == "https"@) && !has_username && !has_password && r is Err ==> (r matches Err(
            AppError::Validation(m),
        ) && m@ == ai_https_message()),
{
    let http = crate::text::str_eq(scheme, "http");
    let https = crate::text::str_eq(scheme, "https");
    if !http && !https {
        return Err(AppError::Validation(String::from_str("AI base URL must use HTTP or HTTPS")));
    }
    if has_username || has_password {
        return Err(AppError::Validation(String::from_str("AI base URL must not contain embedded credentials")));
    }
    proof {
        reveal_strlit("localhost");
        reveal_strlit("http");
        reveal_strlit("https");
        assert("http"@.len() == 4);
        assert("https"@.len() == 5);
        assert("http"@ != "https"@);
    }
    let local = to_chars("localhost");
    let loopback = crate::text::chars_eq_ignore_case(to_chars(host).as_slice(), local.as_slice()) || host_is_loopback_ip;
    if http && !loopback {
        return Err(AppError::Validation(String::from_str("AI base URL must use HTTPS unless it targets localhost")));
    }
    Ok(())
}

/// `s` without the suffix `suffix`, when it ends with it.
pub open spec fn without_suffix(s: Seq<char>, suffix: Seq<char>) -> Option<Seq<char>> {
    if suffix.len() <= s.len() && s.subrange(s.len() - suffix.len(), s.len() as int) == suffix {
        Some(s.subrange(0, s.len() - suffix.len()))
    } else {
        None
    }
}

fn strip_suffix_chars(s: &Vec<char>, suffix: &str) -> (r: Option<Vec<char>>)
    ensures
        match r {
            Some(p) => without_suffix(s@, suffix@) == Some(p@),
            None => without_suffix(s@, suffix@) is None,
        },
{
    let suf = to_chars(suffix);
    if suf.len() > s.len() {
        return None;
    }
    let start = s.len() - suf.len();
    let tail = crate::text::tail_from(s.as_slice(), start);
    if !crate::text::chars_eq(tail.as_slice(), suf.as_slice()) {
        return None;
    }
    let mut head: Vec<char> = Vec::new();
    let mut i: usize = 0;
    while i < start
        invariant
            start <= s@.len(),
            i <= start,
            head@ =~= s@.subrange(0, i as int),
        decreases start - i,
    {
        head.push(s[i]);
        i += 1;
    }
    Some(head)
}

/// The models listing next to a configured AI endpoint: trailing slashes
/// dropped, and a chat-completions or responses path replaced by its
/// parent.
pub open spec fn models_path_of(base_path: Seq<char>) -> Seq<char> {
    let b = crate::text::trim_end(base_path, '/');
    match without_suffix(b, "/chat/completions"@) {
        Some(p) => p + "/models"@,
        None => match without_suffix(b, "/responses"@) {
            Some(p) => p + "/models"@,
            None => b + "/models"@,
        },
    }
}

pub fn ai_models_path(base_path: &str) -> (r: String)
    ensures
        r@ == models_path_of(base_path@),
{
    let b = crate::text::trim_end_chars(to_chars(base_path).as_slice(), '/');
    let prefix = match strip_suffix_chars(&b, "/chat/completions") {
        Some(p) => p,
        None => match strip_suffix_chars(&b, "/responses") {
            Some(p) => p,
            None => b,
        },
    };
    let head = crate::text::from_chars(prefix.as_slice());
    concat_str(head.as_str(), "/models")
}

/// The parts of a parsed AI base URL that the connection test reads.
#[derive(Debug)]
pub struct ParsedAiUrl {
    pub scheme: String,
    pub has_username: bool,
    pub has_password: bool,
    pub host: String,
    /// Whether the host is an IP address of this machine.
    pub host_is_loopback_ip: bool,
    pub path: String,
}

/// The request an AI connection test sends: a GET of this path on the
/// configured endpoint, with this authorization header value.
#[derive(Debug)]
pub struct AiConnectionRequest {
    pub models_path: String,
    pub authorization: String,
}

pub open spec fn ai_url_invalid_message() -> Seq<char> {
    "AI base URL is invalid"@
}

pub open spec fn ai_key_missing_message() -> Seq<char> {
    "Configure an AI API key before testing the connection"@
}

/// What an AI connection test decides before it sends anything: an
/// unparsable URL, a refused endpoint or a missing stored key is refused
/// with its validation error and no request; otherwise the models listing
/// of the endpoint is requested with the stored key as bearer token.
pub open spec fn ai_test_prepared(url: Option<ParsedAiUrl>, stored_key: Option<String>, r: Result<AiConnectionRequest, AppError>) -> bool {
    match url {
        None => r matches Err(AppError::Validation(m)) && m@ == ai_url_invalid_message(),
        Some(u) => {
            let web = u.scheme@ == "http"@ || u.scheme@ == "https"@;
            let local = u.scheme@ == "https"@ || eq_ignore_case(u.host@, "localhost"@) || u.host_is_loopback_ip;
            if !web {
                r matches Err(AppError::Validation(m)) && m@ == ai_scheme_message()
            } else if u.has_username || u.has_password {
                r matches Err(AppError::Validation(m)) && m@ == ai_credentials_message()
            } else if !local {
                r matches Err(AppError::Validation(m)) && m@ == ai_https_message()
            } else {
                match stored_key {
                    None => r matches Err(AppError::Validation(m)) && m@ == ai_key_missing_message(),
                    Some(key) => r matches Ok(req) && req.models_path@ == models_path_of(u.path@)
                        && req.authorization@ == "Bearer "@ + key@,
                }
            }
        },
    }
}

/// Checks the configured AI endpoint, as parsed by the caller (`None`
/// when it does not parse), and the stored key, and builds the request of
/// the connection test.
pub fn prepare_ai_connection_test(url: Option<ParsedAiUrl>, stored_key: Option<String>) -> (r: Result<
    AiConnectionRequest,
    AppError,
>)
    ensures
        ai_test_prepared(url, stored_key, r),
{
    let u = match url {
        None => return Err(AppError::Validation(String::from_str("AI base URL is invalid"))),
        Some(u) => u,
    };
    check_ai_endpoint(u.scheme.as_str(), u.has_username, u.has_password, u.host.as_str(), u.host_is_loopback_ip)?;
    let key = match stored_key {
        None => return Err(AppError::Validation(String::from_str("Configure an AI API key before testing the connection"))),
        Some(k) => k,
    };
    let models_path = ai_models_path(u.path.as_str());
    Ok(AiConnectionRequest { models_path, authorization: concat_str("Bearer ", key.as_str()) })
}

/// The error of a connection test whose request got no answer.
pub fn ai_transport_error(timed_out: bool) -> (r: AppError)
    ensures
        timed_out ==> (r matches AppError::Io(m) && m@ == "AI connection test timed out"@),
        !timed_out ==> (r matches AppError::Io(m) && m@ == "Could not reach the AI service"@),
{
    if timed_out {
        AppError::Io(String::from_str("AI connection test timed out"))
    } else {
        AppError::Io(String::from_str("Could not reach the AI service"))
    }
}

pub open spec fn rejected_key_message() -> Seq<char> {
    "AI service rejected the configured API key"@
}

pub open spec fn endpoint_missing_message() -> Seq<char> {
    "AI endpoint was not found"@
}

pub open spec fn rate_limited_message() -> Seq<char> {
    "AI service rate limit prevented the connection test"@
}

/// What an AI connection test reports for an HTTP status; `status_text` is
/// how the status is written, such as `404 Not Found`.
pub fn ai_status_result(status: u16, status_text: &str) -> (r: Result<(), AppError>)
    ensures
        200 <= status < 300 ==> r is Ok,
        (status == 401 || status == 403) ==> (r matches Err(AppError::Validation(m)) && m@ == rejected_key_message()),
        status == 404 ==> (r matches Err(AppError::Validation(m)) && m@ == endpoint_missing_message()),
        ((500 <= status < 600) || status == 408) ==> (r matches Err(AppError::Internal(m))
            && m@ == "AI service is unavailable (HTTP "@ + status_text@ + ")"@),
        status == 429 ==> (r matches Err(AppError::Validation(m)) && m@ == rate_limited_message()),
        !(200 <= status < 300) && status != 401 && status != 403 && status != 404 && !(500 <= status < 600)
            && status != 408 && status != 429 ==> (r matches Err(AppError::Validation(m))
            && m@ == "AI service rejected the connection test (HTTP "@ + status_text@ + ")"@),
{
    if 200 <= status && status < 300 {
        return Ok(());
    }
    if status == 401 || status == 403 {
        return Err(AppError::Validation(String::from_str("AI service rejected the configured API key")));
    }
    if status == 404 {
        return Err(AppError::Validation(String::from_str("AI endpoint was not found")));
    }
    if (500 <= status && status < 600) || status == 408 {
        let a = concat_str("AI service is unavailable (HTTP ", status_text);
        return Err(AppError::Internal(concat_str(a.as_str(), ")")));
    }
    if status == 429 {
        return Err(AppError::Validation(String::from_str("AI service rate limit prevented the connection test")));
    }
    let a = concat_str("AI service rejected the connection test (HTTP ", status_text);
    Err(AppError::Validation(concat_str(a.as_str(), ")")))
}

} // verus!

verus! {

/// The index of the first game whose mods folder holds `path`, or -1.
pub open spec fn game_index_for_path(games: Seq<GameConfig>, path: Seq<char>) -> int
    decreases games.len(),
{
    if games.len() == 0 {
        -1
    } else if crate::path_rules::component_prefix(path, games[0].mod_path@) {
        0
    } else {
        let k = game_index_for_path(games.drop_first(), path);
        if k < 0 {
            -1
        } else {
            k + 1
        }
    }
}

impl AppSettings {
    /// The configured mods folder of a game, if the game is known.
    pub fn mods_root_for(&self, game_id: &str) -> (r: Option<String>)
        ensures
            game_index(self.games@, game_id@) < 0 ==> r is None,
            game_index(self.games@, game_id@) >= 0 ==> (r matches Some(p)
                && p@ == self.games@[game_index(self.games@, game_id@)].mod_path@),
    {
        match find_game(&self.games, game_id) {
            Some(k) => Some(self.games[k].mod_path.clone()),
            None => None,
        }
    }

    /// The id of the first game whose mods folder holds `path`.
    pub fn game_id_for_path(&self, path: &str) -> (r: Option<String>)
        ensures
            game_index_for_path(self.games@, path@) < 0 ==> r is None,
            game_index_for_path(self.games@, path@) >= 0 ==> (r matches Some(id)
                && id@ == self.games@[game_index_for_path(self.games@, path@)].id@),
    {
        let p = crate::text::to_chars(path);
        let mut k: usize = 0;
        assert(self.games@.skip(0) =~= self.games@);
        while k < self.games.len()
            invariant
                k <= self.games@.len(),
                p@ == path@,
                game_index_for_path(self.games@, path@) == if game_index_for_path(self.games@.skip(k as int), path@) < 0 {
                    -1
                } else {
                    game_index_for_path(self.games@.skip(k as int), path@) + k
                },
            decreases self.games@.len() - k,
        {
            proof {
                assert(self.games@.skip(k as int)[0] == self.games@[k as int]);
                assert(self.games@.skip(k as int).drop_first() =~= self.games@.skip(k + 1));
            }
            let root = crate::text::to_chars(self.games[k].mod_path.as_str());
            if crate::path_rules::has_component_prefix(p.as_slice(), root.as_slice()) {
                return Some(self.games[k].id.clone());
            }
            k += 1;
        }
        None
    }
}

} // verus!

verus! {

pub open spec fn viewer_invalid_message(error: Seq<char>) -> Seq<char> {
    "Configured 3DMigoto Mod Viewer executable is no longer valid ("@ + error
        + "). Select it again in Settings > Integrations."@
}

/// The configured Mod Viewer executable must still be valid when it is
/// launched; a failure names the reason and where to fix it.
pub fn ensure_configured_mod_viewer_executable(path: &str, is_absolute: bool, is_file: bool) -> (r: Result<(), AppError>)
    ensures
        ({
            let checked = if !is_absolute {
                Err(viewer_not_absolute_message())
            } else if !is_file {
                Err(viewer_not_found_message(path@))
            } else if extension_of(path@) matches Some(e) && eq_ignore_case(e, "exe"@) {
                Ok(())
            } else {
                Err(viewer_not_exe_message(path@))
            };
            match checked {
                Ok(()) => r is Ok,
                Err(m) => r matches Err(AppError::Validation(v)) && v@ == viewer_invalid_message(m),
            }
        }),
{
    match validate_mod_viewer_executable(path, is_absolute, is_file) {
        Ok(()) => Ok(()),
        Err(error) => {
            let head = concat_str("Configured 3DMigoto Mod Viewer executable is no longer valid (", error.message().as_str());
            Err(AppError::Validation(concat_str(head.as_str(), "). Select it again in Settings > Integrations.")))
        },
    }
}

} // verus!
