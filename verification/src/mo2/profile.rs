//! The source registry: ranked overlays, load order and archive manifest.
//!
//! The three manifests are plain text, one entry per line. Reading them from
//! disk is the caller's business; this module parses their text and answers
//! the questions the other components ask of the registry.

use vstd::prelude::*;
use crate::paths::{join_path, joined};
use crate::text::{
    chars_of, concat, slice_of, split, split_on, string_of, starts_with, string_views, strip_suffix,
    stripped, trim, trimmed, views,
};

verus! {

/// Whether an overlay takes part in the namespace.
#[derive(Debug, Clone, Copy, PartialEq, Eq, Structural)]
pub enum ModState {
    Enabled,
    Disabled,
}

/// An overlay: a ranked tree that overrides the base tree and every overlay
/// of lower rank.
#[derive(Debug, Clone, PartialEq, Eq)]
pub struct Mod {
    pub name: String,
    pub path: String,
    /// Higher rank wins.
    pub priority: usize,
    pub state: ModState,
}

/// A [`Mod`] with its strings as character sequences.
pub struct ModView {
    pub name: Seq<char>,
    pub path: Seq<char>,
    pub priority: usize,
    pub state: ModState,
}

impl View for Mod {
    type V = ModView;

    open spec fn view(&self) -> ModView {
        ModView { name: self.name@, path: self.path@, priority: self.priority, state: self.state }
    }
}

/// The views of a sequence of overlays.
pub open spec fn mod_views(mods: Seq<Mod>) -> Seq<ModView> {
    mods.map_values(|m: Mod| m@)
}

/// Why a registry could not be loaded.
#[derive(Debug, Clone, Copy, PartialEq, Eq, Structural)]
pub enum ProfileError {
    /// The ranked overlay manifest is required and was not supplied.
    MissingModlist,
}

/// An archive found for the load order: where it is, who owns it, and the
/// owner's rank.
pub type LocatedArchive = (String, String, usize);

/// The registry of content sources.
#[derive(Debug)]
pub struct Profile {
    pub profile_path: String,
    pub mods_dir: String,
    pub game_data_dir: String,
    pub mods: Vec<Mod>,
    pub plugin_order: Vec<String>,
    pub additional_archives: Vec<String>,
}

/// The tag at the start of a line of the ranked overlay manifest: `+` for
/// an enabled overlay, `-` or `*` for a disabled one or a separator.
pub open spec fn tag_of(line: Seq<char>) -> Option<ModState> {
    if line.len() == 0 {
        None
    } else if line[0] == '+' {
        Some(ModState::Enabled)
    } else if line[0] == '-' || line[0] == '*' {
        Some(ModState::Disabled)
    } else {
        None
    }
}

/// The overlays that the given lines declare. Each tagged line takes the
/// next rank, whatever its tag; any other line is passed over and takes
/// none.
pub open spec fn mods_of_lines(lines: Seq<Seq<char>>, mods_dir: Seq<char>) -> Seq<ModView>
    decreases lines.len(),
{
    if lines.len() == 0 {
        Seq::empty()
    } else {
        let before = mods_of_lines(lines.drop_last(), mods_dir);
        let line = trimmed(lines.last());
        match tag_of(line) {
            Some(state) => before.push(
                ModView {
                    name: line.skip(1),
                    path: joined(mods_dir, line.skip(1)),
                    priority: before.len() as usize,
                    state,
                },
            ),
            None => before,
        }
    }
}

/// The overlays that a ranked overlay manifest declares.
pub open spec fn modlist_of(content: Seq<char>, mods_dir: Seq<char>) -> Seq<ModView> {
    mods_of_lines(split_on(content, '\n'), mods_dir)
}

/// Whether a trimmed line of the ranked overlay manifest says nothing that
/// can be used: it is neither blank nor a comment, and it has no tag.
pub open spec fn is_malformed(line: Seq<char>) -> bool {
    line.len() > 0 && line[0] != '#' && !"//"@.is_prefix_of(line) && tag_of(line) is None
}

/// The malformed lines among the given ones, trimmed, in order.
pub open spec fn malformed_of_lines(lines: Seq<Seq<char>>) -> Seq<Seq<char>>
    decreases lines.len(),
{
    if lines.len() == 0 {
        Seq::empty()
    } else {
        let before = malformed_of_lines(lines.drop_last());
        let line = trimmed(lines.last());
        if is_malformed(line) {
            before.push(line)
        } else {
            before
        }
    }
}

/// The lines of a ranked overlay manifest that are passed over as
/// malformed.
pub open spec fn malformed_of(content: Seq<char>) -> Seq<Seq<char>> {
    malformed_of_lines(split_on(content, '\n'))
}

/// The module that a trimmed line of the load order names, if any: blank
/// lines and comments, which begin with `#` or `//`, name none, and a
/// leading `*` is dropped.
pub open spec fn plugin_of(line: Seq<char>) -> Option<Seq<char>> {
    if line.len() == 0 || line[0] == '#' || "//"@.is_prefix_of(line) {
        None
    } else if line[0] == '*' {
        Some(line.skip(1))
    } else {
        Some(line)
    }
}

/// The modules that the given lines name, in order.
pub open spec fn plugins_of_lines(lines: Seq<Seq<char>>) -> Seq<Seq<char>>
    decreases lines.len(),
{
    if lines.len() == 0 {
        Seq::empty()
    } else {
        let before = plugins_of_lines(lines.drop_last());
        match plugin_of(trimmed(lines.last())) {
            Some(name) => before.push(name),
            None => before,
        }
    }
}

/// The modules that a load-order manifest names.
pub open spec fn loadorder_of(content: Seq<char>) -> Seq<Seq<char>> {
    plugins_of_lines(split_on(content, '\n'))
}

/// The archive names on the given lines: every line that is not blank.
pub open spec fn archives_of_lines(lines: Seq<Seq<char>>) -> Seq<Seq<char>>
    decreases lines.len(),
{
    if lines.len() == 0 {
        Seq::empty()
    } else {
        let before = archives_of_lines(lines.drop_last());
        let line = trimmed(lines.last());
        if line.len() == 0 {
            before
        } else {
            before.push(line)
        }
    }
}

/// The archive names that an archive manifest lists.
pub open spec fn archive_list_of(content: Seq<char>) -> Seq<Seq<char>> {
    archives_of_lines(split_on(content, '\n'))
}

/// The enabled overlays among `mods`, in order.
pub open spec fn enabled(mods: Seq<ModView>) -> Seq<ModView>
    decreases mods.len(),
{
    if mods.len() == 0 {
        Seq::empty()
    } else {
        let before = enabled(mods.drop_last());
        if mods.last().state == ModState::Enabled {
            before.push(mods.last())
        } else {
            before
        }
    }
}

/// A module's name without its `.esp`, `.esm` or `.esl` extension.
pub open spec fn base_name(plugin: Seq<char>) -> Seq<char> {
    if stripped(plugin, ".esp"@) is Some {
        stripped(plugin, ".esp"@)->0
    } else if stripped(plugin, ".esm"@) is Some {
        stripped(plugin, ".esm"@)->0
    } else if stripped(plugin, ".esl"@) is Some {
        stripped(plugin, ".esl"@)->0
    } else {
        plugin
    }
}

/// The path of a module's main archive in `dir`.
pub open spec fn main_archive(dir: Seq<char>, base: Seq<char>) -> Seq<char> {
    joined(dir, base + ".bsa"@)
}

/// The path of a module's texture archive in `dir`.
pub open spec fn texture_archive(dir: Seq<char>, base: Seq<char>) -> Seq<char> {
    joined(dir, base + " - Textures.bsa"@)
}

/// An archive found for the load order, as character sequences.
pub type LocatedView = (Seq<char>, Seq<char>, usize);

/// The views of located archives.
pub open spec fn located_views(found: Seq<LocatedArchive>) -> Seq<LocatedView> {
    found.map_values(|t: LocatedArchive| (t.0@, t.1@, t.2))
}

/// `found` with `(path, owner, rank)` added where `path` exists.
pub open spec fn with_archive(
    found: Seq<LocatedView>,
    existing: Seq<Seq<char>>,
    path: Seq<char>,
    owner: Seq<char>,
    rank: usize,
) -> Seq<LocatedView> {
    if existing.contains(path) {
        found.push((path, owner, rank))
    } else {
        found
    }
}

/// `found` with the two conventional archives of the module `base` in
/// `dir`, as far as they exist: the main archive first.
pub open spec fn with_pair(
    found: Seq<LocatedView>,
    existing: Seq<Seq<char>>,
    dir: Seq<char>,
    base: Seq<char>,
    owner: Seq<char>,
    rank: usize,
) -> Seq<LocatedView> {
    with_archive(
        with_archive(found, existing, main_archive(dir, base), owner, rank),
        existing,
        texture_archive(dir, base),
        owner,
        rank,
    )
}

/// The archives of the given modules in the base tree.
pub open spec fn base_archives(
    existing: Seq<Seq<char>>,
    game_dir: Seq<char>,
    plugins: Seq<Seq<char>>,
) -> Seq<LocatedView>
    decreases plugins.len(),
{
    if plugins.len() == 0 {
        Seq::empty()
    } else {
        with_pair(
            base_archives(existing, game_dir, plugins.drop_last()),
            existing,
            game_dir,
            base_name(plugins.last()),
            "Vanilla"@,
            0,
        )
    }
}

/// The first enabled overlay, in registry order, in whose tree `name`
/// exists.
pub open spec fn first_holder(existing: Seq<Seq<char>>, mods: Seq<ModView>, name: Seq<char>)
    -> Option<ModView>
    decreases mods.len(),
{
    if mods.len() == 0 {
        None
    } else if mods[0].state == ModState::Enabled && existing.contains(joined(mods[0].path, name)) {
        Some(mods[0])
    } else {
        first_holder(existing, mods.drop_first(), name)
    }
}

/// `found` with the archives of each given module, taken from the overlay
/// that holds the module.
pub open spec fn with_overlay_archives(
    found: Seq<LocatedView>,
    existing: Seq<Seq<char>>,
    mods: Seq<ModView>,
    plugins: Seq<Seq<char>>,
) -> Seq<LocatedView>
    decreases plugins.len(),
{
    if plugins.len() == 0 {
        found
    } else {
        let before = with_overlay_archives(found, existing, mods, plugins.drop_last());
        match first_holder(existing, mods, plugins.last()) {
            Some(owner) => with_pair(
                before,
                existing,
                owner.path,
                base_name(plugins.last()),
                owner.name,
                owner.priority,
            ),
            None => before,
        }
    }
}

/// `found` with each listed archive, taken from the first enabled overlay
/// that holds it.
pub open spec fn with_listed_archives(
    found: Seq<LocatedView>,
    existing: Seq<Seq<char>>,
    mods: Seq<ModView>,
    names: Seq<Seq<char>>,
) -> Seq<LocatedView>
    decreases names.len(),
{
    if names.len() == 0 {
        found
    } else {
        let before = with_listed_archives(found, existing, mods, names.drop_last());
        match first_holder(existing, mods, names.last()) {
            Some(owner) => before.push(
                (joined(owner.path, names.last()), owner.name, owner.priority),
            ),
            None => before,
        }
    }
}

/// Every archive of the load order, given which paths exist: first those
/// of the base tree, then those in the overlays that hold the modules, then
/// the archives of the archive manifest.
pub open spec fn located(
    existing: Seq<Seq<char>>,
    game_dir: Seq<char>,
    mods: Seq<ModView>,
    plugins: Seq<Seq<char>>,
    names: Seq<Seq<char>>,
) -> Seq<LocatedView> {
    with_listed_archives(
        with_overlay_archives(
            base_archives(existing, game_dir, plugins),
            existing,
            mods,
            plugins,
        ),
        existing,
        mods,
        names,
    )
}

/// `paths` with the main and the texture archive of `base` in `dir`.
pub open spec fn with_pair_candidates(paths: Seq<Seq<char>>, dir: Seq<char>, base: Seq<char>)
    -> Seq<Seq<char>> {
    paths.push(main_archive(dir, base)).push(texture_archive(dir, base))
}

/// `paths` with, for each enabled overlay, the path of `plugin` in it and
/// of the module's two archives.
pub open spec fn with_plugin_candidates(
    paths: Seq<Seq<char>>,
    mods: Seq<ModView>,
    plugin: Seq<char>,
) -> Seq<Seq<char>>
    decreases mods.len(),
{
    if mods.len() == 0 {
        paths
    } else {
        let before = with_plugin_candidates(paths, mods.drop_last(), plugin);
        if mods.last().state == ModState::Enabled {
            with_pair_candidates(
                before.push(joined(mods.last().path, plugin)),
                mods.last().path,
                base_name(plugin),
            )
        } else {
            before
        }
    }
}

/// `paths` with the path of `name` in each enabled overlay.
pub open spec fn with_name_candidates(paths: Seq<Seq<char>>, mods: Seq<ModView>, name: Seq<char>)
    -> Seq<Seq<char>>
    decreases mods.len(),
{
    if mods.len() == 0 {
        paths
    } else {
        let before = with_name_candidates(paths, mods.drop_last(), name);
        if mods.last().state == ModState::Enabled {
            before.push(joined(mods.last().path, name))
        } else {
            before
        }
    }
}

/// `paths` with what the search for the base tree's archives asks about.
pub open spec fn with_base_candidates(
    paths: Seq<Seq<char>>,
    game_dir: Seq<char>,
    plugins: Seq<Seq<char>>,
) -> Seq<Seq<char>>
    decreases plugins.len(),
{
    if plugins.len() == 0 {
        paths
    } else {
        with_pair_candidates(
            with_base_candidates(paths, game_dir, plugins.drop_last()),
            game_dir,
            base_name(plugins.last()),
        )
    }
}

/// `paths` with what the search in the overlays asks about, module by
/// module.
pub open spec fn with_overlay_candidates(
    paths: Seq<Seq<char>>,
    mods: Seq<ModView>,
    plugins: Seq<Seq<char>>,
) -> Seq<Seq<char>>
    decreases plugins.len(),
{
    if plugins.len() == 0 {
        paths
    } else {
        with_plugin_candidates(
            with_overlay_candidates(paths, mods, plugins.drop_last()),
            mods,
            plugins.last(),
        )
    }
}

/// `paths` with what the search for the listed archives asks about.
pub open spec fn with_listed_candidates(
    paths: Seq<Seq<char>>,
    mods: Seq<ModView>,
    names: Seq<Seq<char>>,
) -> Seq<Seq<char>>
    decreases names.len(),
{
    if names.len() == 0 {
        paths
    } else {
        with_name_candidates(
            with_listed_candidates(paths, mods, names.drop_last()),
            mods,
            names.last(),
        )
    }
}

/// Every path whose existence [`located`] may ask about.
pub open spec fn candidates(
    game_dir: Seq<char>,
    mods: Seq<ModView>,
    plugins: Seq<Seq<char>>,
    names: Seq<Seq<char>>,
) -> Seq<Seq<char>> {
    with_listed_candidates(
        with_overlay_candidates(
            with_base_candidates(Seq::empty(), game_dir, plugins),
            mods,
            plugins,
        ),
        mods,
        names,
    )
}

fn duplicate(s: &String) -> (r: String)
    ensures
        r@ == s@,
{
    s.clone()
}

fn holds(existing: &Vec<String>, path: &String) -> (r: bool)
    ensures
        r == string_views(existing@).contains(path@),
{
    let mut i: usize = 0;
    while i < existing.len()
        invariant
            i <= existing.len(),
            forall|j: int| 0 <= j < i ==> string_views(existing@)[j] != path@,
        decreases existing.len() - i,
    {
        if existing[i] == *path {
            assert(string_views(existing@)[i as int] == path@);
            return true;
        }
        i = i + 1;
    }
    false
}

fn plugin_base_name(plugin: &str) -> (r: Vec<char>)
    ensures
        r@ == base_name(plugin@),
{
    let p = chars_of(plugin);
    match strip_suffix(&p, ".esp") {
        Some(base) => base,
        None => match strip_suffix(&p, ".esm") {
            Some(base) => base,
            None => match strip_suffix(&p, ".esl") {
                Some(base) => base,
                None => p,
            },
        },
    }
}

fn main_archive_path(dir: &str, base: &Vec<char>) -> (r: String)
    ensures
        r@ == main_archive(dir@, base@),
{
    let name = string_of(&concat(base, &chars_of(".bsa")));
    join_path(dir, name.as_str())
}

fn texture_archive_path(dir: &str, base: &Vec<char>) -> (r: String)
    ensures
        r@ == texture_archive(dir@, base@),
{
    let name = string_of(&concat(base, &chars_of(" - Textures.bsa")));
    join_path(dir, name.as_str())
}

fn push_if_present(
    found: &mut Vec<LocatedArchive>,
    existing: &Vec<String>,
    path: String,
    owner: &String,
    rank: usize,
)
    ensures
        located_views(final(found)@) == with_archive(
            located_views(old(found)@),
            string_views(existing@),
            path@,
            owner@,
            rank,
        ),
{
    if holds(existing, &path) {
        let ghost before = found@;
        let ghost p = path@;
        found.push((path, duplicate(owner), rank));
        assert(located_views(found@) == located_views(before).push((p, owner@, rank)));
    }
}

fn push_pair(
    found: &mut Vec<LocatedArchive>,
    existing: &Vec<String>,
    dir: &String,
    base: &Vec<char>,
    owner: &String,
    rank: usize,
)
    ensures
        located_views(final(found)@) == with_pair(
            located_views(old(found)@),
            string_views(existing@),
            dir@,
            base@,
            owner@,
            rank,
        ),
{
    let first = main_archive_path(dir.as_str(), base);
    push_if_present(found, existing, first, owner, rank);
    let second = texture_archive_path(dir.as_str(), base);
    push_if_present(found, existing, second, owner, rank);
}

fn push_pair_candidates(paths: &mut Vec<String>, dir: &String, base: &Vec<char>)
    ensures
        string_views(final(paths)@) == with_pair_candidates(
            string_views(old(paths)@),
            dir@,
            base@,
        ),
{
    let ghost before = paths@;
    let first = main_archive_path(dir.as_str(), base);
    let second = texture_archive_path(dir.as_str(), base);
    paths.push(first);
    paths.push(second);
    assert(string_views(paths@) == string_views(before).push(first@).push(second@));
}

impl Profile {
    /// The overlays, as character sequences.
    pub open spec fn mods_view(&self) -> Seq<ModView> {
        mod_views(self.mods@)
    }

    /// The load order, as character sequences.
    pub open spec fn plugins_view(&self) -> Seq<Seq<char>> {
        string_views(self.plugin_order@)
    }

    /// The archive manifest, as character sequences.
    pub open spec fn archives_view(&self) -> Seq<Seq<char>> {
        string_views(self.additional_archives@)
    }

    /// Every overlay's rank is its position in the registry, so ranks are
    /// unique and grow with the position.
    pub open spec fn wf(&self) -> bool {
        forall|i: int| 0 <= i < self.mods@.len() ==> (#[trigger] self.mods@[i]).priority == i
    }

    /// Builds the registry from the text of its manifests.
    ///
    /// The ranked overlay manifest is required: without it loading fails.
    /// The other two are optional, and a missing one counts as empty.
    pub fn load(
        profile_path: &str,
        mods_dir: &str,
        game_data_dir: &str,
        modlist: Option<&str>,
        loadorder: Option<&str>,
        archives: Option<&str>,
    ) -> (r: Result<Profile, ProfileError>)
        ensures
            match r {
                Ok(profile) => {
                    &&& modlist is Some
                    &&& profile.wf()
                    &&& profile.profile_path@ == profile_path@
                    &&& profile.mods_dir@ == mods_dir@
                    &&& profile.game_data_dir@ == game_data_dir@
                    &&& profile.mods_view() == modlist_of(modlist->0@, mods_dir@)
                    &&& profile.plugins_view() == match loadorder {
                        Some(content) => loadorder_of(content@),
                        None => Seq::empty(),
                    }
                    &&& profile.archives_view() == match archives {
                        Some(content) => archive_list_of(content@),
                        None => Seq::empty(),
                    }
                },
                Err(e) => modlist is None && e == ProfileError::MissingModlist,
            },
    {
        let mods = match modlist {
            Some(content) => Self::parse_modlist(content, mods_dir),
            None => {
                return Err(ProfileError::MissingModlist);
            },
        };
        let plugin_order = match loadorder {
            Some(content) => Self::parse_loadorder(content),
            None => Vec::new(),
        };
        let additional_archives = match archives {
            Some(content) => Self::parse_archives(content),
            None => Vec::new(),
        };
        let profile = Profile {
            profile_path: profile_path.to_owned(),
            mods_dir: mods_dir.to_owned(),
            game_data_dir: game_data_dir.to_owned(),
            mods,
            plugin_order,
            additional_archives,
        };
        assert(profile.plugins_view() == match loadorder {
            Some(content) => loadorder_of(content@),
            None => Seq::empty(),
        });
        assert(profile.archives_view() == match archives {
            Some(content) => archive_list_of(content@),
            None => Seq::empty(),
        });
        Ok(profile)
    }

    /// Parses a ranked overlay manifest. A line reads `+name` for an
    /// enabled overlay and `-name` or `*name` for a disabled one or a
    /// separator. Overlays near the end of the manifest outrank those
    /// before them.
    pub fn parse_modlist(content: &str, mods_dir: &str) -> (mods: Vec<Mod>)
        ensures
            mod_views(mods@) == modlist_of(content@, mods_dir@),
            forall|i: int| 0 <= i < mods@.len() ==> (#[trigger] mods@[i]).priority == i,
    {
        let text = chars_of(content);
        let lines = split(&text, '\n');
        let mut mods: Vec<Mod> = Vec::new();
        let mut i: usize = 0;
        assert(views(lines@).take(0) == Seq::<Seq<char>>::empty());
        while i < lines.len()
            invariant
                i <= lines.len(),
                mod_views(mods@) == mods_of_lines(views(lines@).take(i as int), mods_dir@),
                forall|k: int| 0 <= k < mods@.len() ==> (#[trigger] mods@[k]).priority == k,
            decreases lines.len() - i,
        {
            let line = trim(&lines[i]);
            proof {
                let upto = views(lines@).take(i + 1);
                assert(upto.drop_last() == views(lines@).take(i as int));
                assert(upto.last() == lines@[i as int]@);
            }
            if line.len() > 0 && (line[0] == '+' || line[0] == '-' || line[0] == '*') {
                let state = if line[0] == '+' {
                    ModState::Enabled
                } else {
                    ModState::Disabled
                };
                let name = string_of(&slice_of(&line, 1, line.len()));
                let path = join_path(mods_dir, name.as_str());
                let priority = mods.len();
                let ghost before = mods@;
                let entry = Mod { name, path, priority, state };
                mods.push(entry);
                proof {
                    assert(line@.skip(1) == line@.subrange(1, line@.len() as int));
                    assert(mod_views(mods@) == mod_views(before).push(entry@));
                }
            }
            i = i + 1;
        }
        assert(views(lines@).take(lines.len() as int) == views(lines@));
        mods
    }

    /// The lines of a ranked overlay manifest that [`Self::parse_modlist`]
    /// passes over as malformed, so that the caller can warn of them.
    pub fn malformed_modlist_lines(content: &str) -> (skipped: Vec<String>)
        ensures
            string_views(skipped@) == malformed_of(content@),
    {
        let text = chars_of(content);
        let lines = split(&text, '\n');
        let mut skipped: Vec<String> = Vec::new();
        let comment = chars_of("//");
        let mut i: usize = 0;
        assert(views(lines@).take(0) == Seq::<Seq<char>>::empty());
        while i < lines.len()
            invariant
                i <= lines.len(),
                comment@ == "//"@,
                string_views(skipped@) == malformed_of_lines(views(lines@).take(i as int)),
            decreases lines.len() - i,
        {
            let line = trim(&lines[i]);
            proof {
                let upto = views(lines@).take(i + 1);
                assert(upto.drop_last() == views(lines@).take(i as int));
                assert(upto.last() == lines@[i as int]@);
            }
            if line.len() > 0 && line[0] != '#' && !starts_with(&line, &comment) && line[0] != '+'
                && line[0] != '-' && line[0] != '*' {
                let ghost before = skipped@;
                let kept = string_of(&line);
                skipped.push(kept);
                assert(string_views(skipped@) == string_views(before).push(line@));
            }
            i = i + 1;
        }
        assert(views(lines@).take(lines.len() as int) == views(lines@));
        skipped
    }

    /// Parses a load-order manifest: one module per line, with or without
    /// a leading `*`. Blank lines and comments are passed over.
    pub fn parse_loadorder(content: &str) -> (plugins: Vec<String>)
        ensures
            string_views(plugins@) == loadorder_of(content@),
    {
        let text = chars_of(content);
        let lines = split(&text, '\n');
        let mut plugins: Vec<String> = Vec::new();
        let comment = chars_of("//");
        let mut i: usize = 0;
        assert(views(lines@).take(0) == Seq::<Seq<char>>::empty());
        while i < lines.len()
            invariant
                i <= lines.len(),
                comment@ == "//"@,
                string_views(plugins@) == plugins_of_lines(views(lines@).take(i as int)),
            decreases lines.len() - i,
        {
            let line = trim(&lines[i]);
            proof {
                let upto = views(lines@).take(i + 1);
                assert(upto.drop_last() == views(lines@).take(i as int));
                assert(upto.last() == lines@[i as int]@);
            }
            if line.len() > 0 && line[0] != '#' && !starts_with(&line, &comment) {
                let ghost before = plugins@;
                let name = if line[0] == '*' {
                    proof {
                        assert(line@.skip(1) == line@.subrange(1, line@.len() as int));
                    }
                    string_of(&slice_of(&line, 1, line.len()))
                } else {
                    string_of(&line)
                };
                plugins.push(name);
                assert(string_views(plugins@) == string_views(before).push(name@));
            }
            i = i + 1;
        }
        assert(views(lines@).take(lines.len() as int) == views(lines@));
        plugins
    }

    /// Parses an archive manifest: one archive file name per line.
    pub fn parse_archives(content: &str) -> (names: Vec<String>)
        ensures
            string_views(names@) == archive_list_of(content@),
    {
        let text = chars_of(content);
        let lines = split(&text, '\n');
        let mut names: Vec<String> = Vec::new();
        let mut i: usize = 0;
        assert(views(lines@).take(0) == Seq::<Seq<char>>::empty());
        while i < lines.len()
            invariant
                i <= lines.len(),
                string_views(names@) == archives_of_lines(views(lines@).take(i as int)),
            decreases lines.len() - i,
        {
            let line = trim(&lines[i]);
            proof {
                let upto = views(lines@).take(i + 1);
                assert(upto.drop_last() == views(lines@).take(i as int));
                assert(upto.last() == lines@[i as int]@);
            }
            if line.len() > 0 {
                let ghost before = names@;
                let name = string_of(&line);
                names.push(name);
                assert(string_views(names@) == string_views(before).push(name@));
            }
            i = i + 1;
        }
        assert(views(lines@).take(lines.len() as int) == views(lines@));
        names
    }

    /// The enabled overlays by ascending rank.
    pub fn enabled_mods(&self) -> (r: Vec<&Mod>)
        ensures
            r@.map_values(|m: &Mod| m@) == enabled(self.mods_view()),
    {
        let mut r: Vec<&Mod> = Vec::new();
        let mut i: usize = 0;
        assert(self.mods_view().take(0) == Seq::<ModView>::empty());
        while i < self.mods.len()
            invariant
                i <= self.mods.len(),
                r@.map_values(|m: &Mod| m@) == enabled(self.mods_view().take(i as int)),
            decreases self.mods.len() - i,
        {
            proof {
                let upto = self.mods_view().take(i + 1);
                assert(upto.drop_last() == self.mods_view().take(i as int));
                assert(upto.last() == self.mods@[i as int]@);
            }
            if self.mods[i].state == ModState::Enabled {
                let ghost before = r@;
                r.push(&self.mods[i]);
                assert(r@.map_values(|m: &Mod| m@) == before.map_values(|m: &Mod| m@).push(
                    self.mods@[i as int]@,
                ));
            }
            i = i + 1;
        }
        assert(self.mods_view().take(self.mods.len() as int) == self.mods_view());
        r
    }

    /// The enabled overlays by descending rank.
    pub fn enabled_mods_reverse(&self) -> (r: Vec<&Mod>)
        ensures
            r@.map_values(|m: &Mod| m@) == enabled(self.mods_view()).reverse(),
    {
        let ascending = self.enabled_mods();
        let mut r: Vec<&Mod> = Vec::new();
        let n = ascending.len();
        let mut i: usize = 0;
        while i < n
            invariant
                i <= n,
                n == ascending.len(),
                r@.len() == i,
                forall|k: int| 0 <= k < i ==> r@[k] == ascending@[n - 1 - k],
            decreases n - i,
        {
            r.push(ascending[n - 1 - i]);
            i = i + 1;
        }
        assert(r@.map_values(|m: &Mod| m@) == ascending@.map_values(|m: &Mod| m@).reverse());
        r
    }

    fn find_holder(&self, existing: &Vec<String>, name: &String) -> (r: Option<usize>)
        ensures
            match r {
                Some(at) => at < self.mods@.len() && first_holder(
                    string_views(existing@),
                    self.mods_view(),
                    name@,
                ) == Some(self.mods@[at as int]@),
                None => first_holder(string_views(existing@), self.mods_view(), name@) is None,
            },
    {
        let mut i: usize = 0;
        assert(self.mods_view().skip(0) == self.mods_view());
        while i < self.mods.len()
            invariant
                i <= self.mods.len(),
                first_holder(string_views(existing@), self.mods_view(), name@) == first_holder(
                    string_views(existing@),
                    self.mods_view().skip(i as int),
                    name@,
                ),
            decreases self.mods.len() - i,
        {
            proof {
                let rest = self.mods_view().skip(i as int);
                assert(rest[0] == self.mods@[i as int]@);
                assert(rest.drop_first() == self.mods_view().skip(i + 1));
            }
            if self.mods[i].state == ModState::Enabled {
                let probe = join_path(self.mods[i].path.as_str(), name.as_str());
                if holds(existing, &probe) {
                    return Some(i);
                }
            }
            i = i + 1;
        }
        None
    }

    /// The archives that belong to the load order, given the paths that
    /// exist on disk.
    ///
    /// For each module of the load order the base tree is searched for the
    /// module's main archive and its texture archive. Then, module by
    /// module, the first enabled overlay that holds the module is searched
    /// for the same two archives. Last, each archive of the archive
    /// manifest is taken from the first enabled overlay that holds it.
    /// Each result gives the archive's path, its owner's name and rank;
    /// the base tree is owner `Vanilla` with rank 0.
    ///
    /// `existing` stands for the file system: a path exists where the list
    /// holds it. [`Self::archive_candidates`] gives the paths to try.
    pub fn get_plugin_bsas(&self, existing: &Vec<String>) -> (bsas: Vec<LocatedArchive>)
        ensures
            located_views(bsas@) == located(
                string_views(existing@),
                self.game_data_dir@,
                self.mods_view(),
                self.plugins_view(),
                self.archives_view(),
            ),
    {
        let ghost ex = string_views(existing@);
        let mut bsas: Vec<LocatedArchive> = Vec::new();
        let vanilla = "Vanilla".to_owned();

        let mut i: usize = 0;
        assert(self.plugins_view().take(0) == Seq::<Seq<char>>::empty());
        assert(located_views(bsas@) == Seq::<LocatedView>::empty());
        while i < self.plugin_order.len()
            invariant
                i <= self.plugin_order.len(),
                ex == string_views(existing@),
                vanilla@ == "Vanilla"@,
                located_views(bsas@) == base_archives(
                    ex,
                    self.game_data_dir@,
                    self.plugins_view().take(i as int),
                ),
            decreases self.plugin_order.len() - i,
        {
            proof {
                let upto = self.plugins_view().take(i + 1);
                assert(upto.drop_last() == self.plugins_view().take(i as int));
                assert(upto.last() == self.plugin_order@[i as int]@);
            }
            let base = plugin_base_name(self.plugin_order[i].as_str());
            push_pair(&mut bsas, existing, &self.game_data_dir, &base, &vanilla, 0);
            i = i + 1;
        }
        assert(self.plugins_view().take(self.plugin_order.len() as int) == self.plugins_view());

        let ghost from_base = located_views(bsas@);
        let mut i: usize = 0;
        while i < self.plugin_order.len()
            invariant
                i <= self.plugin_order.len(),
                ex == string_views(existing@),
                located_views(bsas@) == with_overlay_archives(
                    from_base,
                    ex,
                    self.mods_view(),
                    self.plugins_view().take(i as int),
                ),
            decreases self.plugin_order.len() - i,
        {
            proof {
                let upto = self.plugins_view().take(i + 1);
                assert(upto.drop_last() == self.plugins_view().take(i as int));
                assert(upto.last() == self.plugin_order@[i as int]@);
            }
            match self.find_holder(existing, &self.plugin_order[i]) {
                Some(at) => {
                    let base = plugin_base_name(self.plugin_order[i].as_str());
                    let owner = &self.mods[at];
                    push_pair(&mut bsas, existing, &owner.path, &base, &owner.name, owner.priority);
                },
                None => {},
            }
            i = i + 1;
        }
        assert(self.plugins_view().take(self.plugin_order.len() as int) == self.plugins_view());

        let ghost from_overlays = located_views(bsas@);
        let mut i: usize = 0;
        assert(self.archives_view().take(0) == Seq::<Seq<char>>::empty());
        while i < self.additional_archives.len()
            invariant
                i <= self.additional_archives.len(),
                ex == string_views(existing@),
                located_views(bsas@) == with_listed_archives(
                    from_overlays,
                    ex,
                    self.mods_view(),
                    self.archives_view().take(i as int),
                ),
            decreases self.additional_archives.len() - i,
        {
            proof {
                let upto = self.archives_view().take(i + 1);
                assert(upto.drop_last() == self.archives_view().take(i as int));
                assert(upto.last() == self.additional_archives@[i as int]@);
            }
            match self.find_holder(existing, &self.additional_archives[i]) {
                Some(at) => {
                    let owner = &self.mods[at];
                    let path = join_path(
                        owner.path.as_str(),
                        self.additional_archives[i].as_str(),
                    );
                    let ghost before = bsas@;
                    let ghost p = path@;
                    bsas.push((path, duplicate(&owner.name), owner.priority));
                    assert(located_views(bsas@) == located_views(before).push(
                        (p, owner.name@, owner.priority),
                    ));
                },
                None => {},
            }
            i = i + 1;
        }
        assert(self.archives_view().take(self.additional_archives.len() as int)
            == self.archives_view());
        bsas
    }

    fn push_plugin_candidates(&self, paths: &mut Vec<String>, plugin: &String)
        ensures
            string_views(final(paths)@) == with_plugin_candidates(
                string_views(old(paths)@),
                self.mods_view(),
                plugin@,
            ),
    {
        let ghost start = string_views(paths@);
        let base = plugin_base_name(plugin.as_str());
        let mut j: usize = 0;
        assert(self.mods_view().take(0) == Seq::<ModView>::empty());
        while j < self.mods.len()
            invariant
                j <= self.mods.len(),
                base@ == base_name(plugin@),
                string_views(paths@) == with_plugin_candidates(
                    start,
                    self.mods_view().take(j as int),
                    plugin@,
                ),
            decreases self.mods.len() - j,
        {
            proof {
                let upto = self.mods_view().take(j + 1);
                assert(upto.drop_last() == self.mods_view().take(j as int));
                assert(upto.last() == self.mods@[j as int]@);
            }
            if self.mods[j].state == ModState::Enabled {
                let ghost before = paths@;
                let probe = join_path(self.mods[j].path.as_str(), plugin.as_str());
                paths.push(probe);
                assert(string_views(paths@) == string_views(before).push(probe@));
                push_pair_candidates(paths, &self.mods[j].path, &base);
            }
            j = j + 1;
        }
        assert(self.mods_view().take(self.mods.len() as int) == self.mods_view());
    }

    fn push_name_candidates(&self, paths: &mut Vec<String>, name: &String)
        ensures
            string_views(final(paths)@) == with_name_candidates(
                string_views(old(paths)@),
                self.mods_view(),
                name@,
            ),
    {
        let ghost start = string_views(paths@);
        let mut j: usize = 0;
        assert(self.mods_view().take(0) == Seq::<ModView>::empty());
        while j < self.mods.len()
            invariant
                j <= self.mods.len(),
                string_views(paths@) == with_name_candidates(
                    start,
                    self.mods_view().take(j as int),
                    name@,
                ),
            decreases self.mods.len() - j,
        {
            proof {
                let upto = self.mods_view().take(j + 1);
                assert(upto.drop_last() == self.mods_view().take(j as int));
                assert(upto.last() == self.mods@[j as int]@);
            }
            if self.mods[j].state == ModState::Enabled {
                let ghost before = paths@;
                let probe = join_path(self.mods[j].path.as_str(), name.as_str());
                paths.push(probe);
                assert(string_views(paths@) == string_views(before).push(probe@));
            }
            j = j + 1;
        }
        assert(self.mods_view().take(self.mods.len() as int) == self.mods_view());
    }

    /// Every path whose existence [`Self::get_plugin_bsas`] may ask about,
    /// in the order of its search.
    pub fn archive_candidates(&self) -> (paths: Vec<String>)
        ensures
            string_views(paths@) == candidates(
                self.game_data_dir@,
                self.mods_view(),
                self.plugins_view(),
                self.archives_view(),
            ),
    {
        let mut paths: Vec<String> = Vec::new();
        let mut i: usize = 0;
        assert(self.plugins_view().take(0) == Seq::<Seq<char>>::empty());
        assert(string_views(paths@) == Seq::<Seq<char>>::empty());
        while i < self.plugin_order.len()
            invariant
                i <= self.plugin_order.len(),
                string_views(paths@) == with_base_candidates(
                    Seq::empty(),
                    self.game_data_dir@,
                    self.plugins_view().take(i as int),
                ),
            decreases self.plugin_order.len() - i,
        {
            proof {
                let upto = self.plugins_view().take(i + 1);
                assert(upto.drop_last() == self.plugins_view().take(i as int));
                assert(upto.last() == self.plugin_order@[i as int]@);
            }
            let base = plugin_base_name(self.plugin_order[i].as_str());
            push_pair_candidates(&mut paths, &self.game_data_dir, &base);
            i = i + 1;
        }
        assert(self.plugins_view().take(self.plugin_order.len() as int) == self.plugins_view());

        let ghost from_base = string_views(paths@);
        let mut i: usize = 0;
        while i < self.plugin_order.len()
            invariant
                i <= self.plugin_order.len(),
                string_views(paths@) == with_overlay_candidates(
                    from_base,
                    self.mods_view(),
                    self.plugins_view().take(i as int),
                ),
            decreases self.plugin_order.len() - i,
        {
            proof {
                let upto = self.plugins_view().take(i + 1);
                assert(upto.drop_last() == self.plugins_view().take(i as int));
                assert(upto.last() == self.plugin_order@[i as int]@);
            }
            self.push_plugin_candidates(&mut paths, &self.plugin_order[i]);
            i = i + 1;
        }
        assert(self.plugins_view().take(self.plugin_order.len() as int) == self.plugins_view());

        let ghost from_overlays = string_views(paths@);
        let mut i: usize = 0;
        assert(self.archives_view().take(0) == Seq::<Seq<char>>::empty());
        while i < self.additional_archives.len()
            invariant
                i <= self.additional_archives.len(),
                string_views(paths@) == with_listed_candidates(
                    from_overlays,
                    self.mods_view(),
                    self.archives_view().take(i as int),
                ),
            decreases self.additional_archives.len() - i,
        {
            proof {
                let upto = self.archives_view().take(i + 1);
                assert(upto.drop_last() == self.archives_view().take(i as int));
                assert(upto.last() == self.additional_archives@[i as int]@);
            }
            self.push_name_candidates(&mut paths, &self.additional_archives[i]);
            i = i + 1;
        }
        assert(self.archives_view().take(self.additional_archives.len() as int)
            == self.archives_view());
        paths
    }
}

} // verus!
