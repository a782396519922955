//! The virtual namespace: one winner per path key.
//!
//! The base tree is laid down first. Then every enabled overlay is laid
//! over it, by ascending rank, and each file it holds takes the place of
//! whatever was stored under the same key. The last writer of a key is
//! therefore the highest-ranked overlay that provides it.

use vstd::prelude::*;
use crate::keyed::KeyedList;
use crate::mo2::profile::{enabled, Mod, ModView, Profile};
use crate::paths::{is_texture, is_texture_key, normalize, normalized};

verus! {

/// Where a file of the namespace comes from.
#[derive(Debug, Clone, PartialEq, Eq)]
pub enum FileSource {
    /// A file of the base tree.
    Vanilla(String),
    /// A file of an overlay.
    Mod { mod_name: String, mod_priority: usize, file_path: String },
    /// An entry of an archive.
    Bsa { archive_name: String, internal_path: String, archive_path: String },
}

/// A [`FileSource`] with its strings as character sequences.
pub enum SourceView {
    Vanilla(Seq<char>),
    Mod { mod_name: Seq<char>, mod_priority: usize, file_path: Seq<char> },
    Bsa { archive_name: Seq<char>, internal_path: Seq<char>, archive_path: Seq<char> },
}

impl View for FileSource {
    type V = SourceView;

    open spec fn view(&self) -> SourceView {
        match self {
            FileSource::Vanilla(p) => SourceView::Vanilla(p@),
            FileSource::Mod { mod_name, mod_priority, file_path } => SourceView::Mod {
                mod_name: mod_name@,
                mod_priority: *mod_priority,
                file_path: file_path@,
            },
            FileSource::Bsa { archive_name, internal_path, archive_path } => SourceView::Bsa {
                archive_name: archive_name@,
                internal_path: internal_path@,
                archive_path: archive_path@,
            },
        }
    }
}

impl FileSource {
    /// The rank of this source: the base tree and archives have rank 0.
    pub fn priority(&self) -> (r: usize)
        ensures
            r == match self@ {
                SourceView::Mod { mod_priority, .. } => mod_priority,
                _ => 0usize,
            },
    {
        match self {
            FileSource::Vanilla(_) => 0,
            FileSource::Mod { mod_priority, .. } => *mod_priority,
            FileSource::Bsa { .. } => 0,
        }
    }

    /// Where the file lies on disk; an archive entry lies nowhere.
    pub fn physical_path(&self) -> (r: Option<&String>)
        ensures
            match self@ {
                SourceView::Vanilla(p) => r is Some && r->0@ == p,
                SourceView::Mod { file_path, .. } => r is Some && r->0@ == file_path,
                SourceView::Bsa { .. } => r is None,
            },
    {
        match self {
            FileSource::Vanilla(p) => Some(p),
            FileSource::Mod { file_path, .. } => Some(file_path),
            FileSource::Bsa { .. } => None,
        }
    }
}

/// A file found while walking a tree: its path relative to the tree's root,
/// and where it lies on disk.
#[derive(Debug, Clone)]
pub struct FoundFile {
    pub relative: String,
    pub path: String,
}

/// A [`FoundFile`] as character sequences.
pub struct FoundView {
    pub relative: Seq<char>,
    pub path: Seq<char>,
}

impl View for FoundFile {
    type V = FoundView;

    open spec fn view(&self) -> FoundView {
        FoundView { relative: self.relative@, path: self.path@ }
    }
}

/// The views of a tree's files.
pub open spec fn found_views(files: Seq<FoundFile>) -> Seq<FoundView> {
    files.map_values(|f: FoundFile| f@)
}

/// The views of several trees' files.
pub open spec fn listing_views(listings: Seq<Vec<FoundFile>>) -> Seq<Seq<FoundView>> {
    listings.map_values(|l: Vec<FoundFile>| found_views(l@))
}

/// The layer a file belongs to.
pub enum Layer {
    Base,
    Overlay { name: Seq<char>, rank: usize },
}

/// The source of a file at `path` in the given layer.
pub open spec fn source_in(layer: Layer, path: Seq<char>) -> SourceView {
    match layer {
        Layer::Base => SourceView::Vanilla(path),
        Layer::Overlay { name, rank } => SourceView::Mod {
            mod_name: name,
            mod_priority: rank,
            file_path: path,
        },
    }
}

/// The layer of an overlay.
pub open spec fn layer_of(m: ModView) -> Layer {
    Layer::Overlay { name: m.name, rank: m.priority }
}

/// `map` after the files of one layer were written over it, in order.
pub open spec fn with_layer(
    map: Map<Seq<char>, SourceView>,
    files: Seq<FoundView>,
    layer: Layer,
) -> Map<Seq<char>, SourceView>
    decreases files.len(),
{
    if files.len() == 0 {
        map
    } else {
        with_layer(map, files.drop_last(), layer).insert(
            normalized(files.last().relative),
            source_in(layer, files.last().path),
        )
    }
}

/// `map` after the given overlays were written over it, in order; overlay
/// `i` holds the files `listings[i]`.
pub open spec fn with_overlays(
    map: Map<Seq<char>, SourceView>,
    mods: Seq<ModView>,
    listings: Seq<Seq<FoundView>>,
) -> Map<Seq<char>, SourceView>
    decreases mods.len(),
{
    if mods.len() == 0 {
        map
    } else {
        with_layer(
            with_overlays(map, mods.drop_last(), listings.drop_last()),
            listings.last(),
            layer_of(mods.last()),
        )
    }
}

/// The namespace of a base tree and the enabled overlays among `mods`.
pub open spec fn layered(
    base: Seq<FoundView>,
    mods: Seq<ModView>,
    listings: Seq<Seq<FoundView>>,
) -> Map<Seq<char>, SourceView> {
    with_overlays(with_layer(Map::empty(), base, Layer::Base), enabled(mods), listings)
}

/// The views of a map's sources.
pub open spec fn source_views(map: Map<Seq<char>, FileSource>) -> Map<Seq<char>, SourceView> {
    map.map_values(|s: FileSource| s@)
}

/// Why a namespace could not be built.
#[derive(Debug, Clone, Copy, PartialEq, Eq, Structural)]
pub enum VfsError {
    /// There is not exactly one file listing per enabled overlay.
    ListingMismatch,
}

/// How many entries of a namespace come from where.
#[derive(Debug, Clone, Copy, PartialEq, Eq, Structural)]
pub struct VfsStatistics {
    pub total_files: usize,
    pub vanilla_files: usize,
    pub mod_files: usize,
    pub bsa_files: usize,
}

/// How many of `sources` are base files.
pub open spec fn count_vanilla(sources: Seq<FileSource>) -> nat
    decreases sources.len(),
{
    if sources.len() == 0 {
        0
    } else {
        count_vanilla(sources.drop_last()) + if sources.last() is Vanilla {
            1nat
        } else {
            0nat
        }
    }
}

/// How many of `sources` are overlay files.
pub open spec fn count_mod(sources: Seq<FileSource>) -> nat
    decreases sources.len(),
{
    if sources.len() == 0 {
        0
    } else {
        count_mod(sources.drop_last()) + if sources.last() is Mod {
            1nat
        } else {
            0nat
        }
    }
}

/// How many of `sources` are archive entries.
pub open spec fn count_bsa(sources: Seq<FileSource>) -> nat
    decreases sources.len(),
{
    if sources.len() == 0 {
        0
    } else {
        count_bsa(sources.drop_last()) + if sources.last() is Bsa {
            1nat
        } else {
            0nat
        }
    }
}

proof fn lemma_counts_bounded(sources: Seq<FileSource>)
    ensures
        count_vanilla(sources) + count_mod(sources) + count_bsa(sources) == sources.len(),
    decreases sources.len(),
{
    if sources.len() > 0 {
        lemma_counts_bounded(sources.drop_last());
    }
}

/// The indices of the texture keys among `keys`, in order.
pub open spec fn texture_indices(keys: Seq<Seq<char>>) -> Seq<int>
    decreases keys.len(),
{
    if keys.len() == 0 {
        Seq::empty()
    } else {
        let before = texture_indices(keys.drop_last());
        if is_texture_key(keys.last()) {
            before.push(keys.len() - 1)
        } else {
            before
        }
    }
}

/// The views of namespace entries.
pub open spec fn entry_views(entries: Seq<(&String, &FileSource)>) -> Seq<(Seq<char>, SourceView)> {
    entries.map_values(|e: (&String, &FileSource)| (e.0@, e.1@))
}

/// Whether one of `files` has the key `key`.
pub open spec fn provides(files: Seq<FoundView>, key: Seq<char>) -> bool {
    exists|i: int| 0 <= i < files.len() && normalized(#[trigger] files[i].relative) == key
}

/// The index of the last of `files` that has the key `key`.
pub open spec fn last_provider(files: Seq<FoundView>, key: Seq<char>) -> Option<int>
    decreases files.len(),
{
    if files.len() == 0 {
        None
    } else if normalized(files.last().relative) == key {
        Some(files.len() - 1)
    } else {
        last_provider(files.drop_last(), key)
    }
}

/// The index of the last listing that provides `key`.
pub open spec fn top_provider(listings: Seq<Seq<FoundView>>, key: Seq<char>) -> Option<int>
    decreases listings.len(),
{
    if listings.len() == 0 {
        None
    } else if provides(listings.last(), key) {
        Some(listings.len() - 1)
    } else {
        top_provider(listings.drop_last(), key)
    }
}

/// A tree provides a key exactly where it has a last file with that key,
/// and no file after that one has the key.
pub proof fn lemma_last_provider(files: Seq<FoundView>, key: Seq<char>)
    ensures
        provides(files, key) <==> last_provider(files, key) is Some,
        match last_provider(files, key) {
            Some(i) => {
                &&& 0 <= i < files.len()
                &&& normalized(files[i].relative) == key
                &&& forall|k: int| i < k < files.len() ==> normalized(files[k].relative) != key
            },
            None => true,
        },
    decreases files.len(),
{
    if files.len() > 0 {
        let rest = files.drop_last();
        lemma_last_provider(rest, key);
        if normalized(files.last().relative) == key {
            assert(normalized(files[files.len() - 1].relative) == key);
        } else {
            if last_provider(rest, key) is Some {
                let at = last_provider(rest, key)->0;
                assert(files[at] == rest[at]);
                assert forall|k: int| at < k < files.len() implies normalized(
                    files[k].relative,
                ) != key by {
                    if k < rest.len() {
                        assert(files[k] == rest[k]);
                    }
                }
            }
            if provides(files, key) {
                let i = choose|i: int|
                    0 <= i < files.len() && normalized(#[trigger] files[i].relative) == key;
                assert(normalized(rest[i].relative) == key);
            }
            if provides(rest, key) {
                let i = choose|i: int|
                    0 <= i < rest.len() && normalized(#[trigger] rest[i].relative) == key;
                assert(normalized(files[i].relative) == key);
            }
        }
    }
}

/// What writing one layer does to one key: the last file of the layer with
/// that key decides; a layer without such a file leaves the key alone.
pub proof fn lemma_with_layer(
    map: Map<Seq<char>, SourceView>,
    files: Seq<FoundView>,
    layer: Layer,
    key: Seq<char>,
)
    ensures
        match last_provider(files, key) {
            Some(i) => {
                &&& with_layer(map, files, layer).dom().contains(key)
                &&& with_layer(map, files, layer)[key] == source_in(layer, files[i].path)
            },
            None => {
                &&& with_layer(map, files, layer).dom().contains(key) == map.dom().contains(key)
                &&& map.dom().contains(key) ==> with_layer(map, files, layer)[key] == map[key]
            },
        },
    decreases files.len(),
{
    if files.len() > 0 {
        let rest = files.drop_last();
        lemma_with_layer(map, rest, layer, key);
        if normalized(files.last().relative) != key {
            if last_provider(rest, key) is Some {
                lemma_last_provider(rest, key);
                assert(files[last_provider(rest, key)->0] == rest[last_provider(rest, key)->0]);
            }
        }
    }
}

/// The listing that [`top_provider`] names provides the key, and no
/// listing after it does.
pub proof fn lemma_top_provider(listings: Seq<Seq<FoundView>>, key: Seq<char>)
    ensures
        match top_provider(listings, key) {
            Some(j) => {
                &&& 0 <= j < listings.len()
                &&& provides(listings[j], key)
                &&& forall|k: int| j < k < listings.len() ==> !provides(#[trigger] listings[k], key)
            },
            None => forall|k: int| 0 <= k < listings.len() ==> !provides(#[trigger] listings[k], key),
        },
    decreases listings.len(),
{
    if listings.len() > 0 {
        let rest = listings.drop_last();
        lemma_top_provider(rest, key);
        if !provides(listings.last(), key) {
            assert forall|k: int| 0 <= k < listings.len() implies (match top_provider(rest, key) {
                Some(j) => k > j ==> !provides(#[trigger] listings[k], key),
                None => !provides(#[trigger] listings[k], key),
            }) by {
                if k < rest.len() {
                    assert(listings[k] == rest[k]);
                }
            }
            if top_provider(rest, key) is Some {
                assert(listings[top_provider(rest, key)->0] == rest[top_provider(rest, key)->0]);
            }
        }
    }
}

/// What writing the overlays does to one key: the last overlay that
/// provides it decides, with the last of its files that has the key;
/// overlays that do not provide it leave it alone.
pub proof fn lemma_with_overlays(
    map: Map<Seq<char>, SourceView>,
    mods: Seq<ModView>,
    listings: Seq<Seq<FoundView>>,
    key: Seq<char>,
)
    requires
        mods.len() == listings.len(),
    ensures
        match top_provider(listings, key) {
            Some(j) => {
                &&& 0 <= j < listings.len()
                &&& last_provider(listings[j], key) is Some
                &&& with_overlays(map, mods, listings).dom().contains(key)
                &&& with_overlays(map, mods, listings)[key] == source_in(
                    layer_of(mods[j]),
                    listings[j][last_provider(listings[j], key)->0].path,
                )
            },
            None => {
                &&& with_overlays(map, mods, listings).dom().contains(key) == map.dom().contains(
                    key,
                )
                &&& map.dom().contains(key) ==> with_overlays(map, mods, listings)[key]
                    == map[key]
            },
        },
    decreases mods.len(),
{
    if mods.len() > 0 {
        let below = with_overlays(map, mods.drop_last(), listings.drop_last());
        lemma_with_overlays(map, mods.drop_last(), listings.drop_last(), key);
        lemma_with_layer(below, listings.last(), layer_of(mods.last()), key);
        lemma_last_provider(listings.last(), key);
        if !provides(listings.last(), key) {
            if top_provider(listings.drop_last(), key) is Some {
                let j = top_provider(listings.drop_last(), key)->0;
                assert(listings[j] == listings.drop_last()[j]);
                assert(mods[j] == mods.drop_last()[j]);
            }
        }
    }
}

/// The overlay of highest rank that provides a key wins it.
///
/// Of the enabled overlays `mods`, whose ranks grow along the list, let
/// overlay `j` provide `key`, and let no overlay that provides `key` outrank
/// it. Then the namespace holds for `key` a file of overlay `j`: the last
/// of its files with that key. What the base tree and the overlays below
/// hold for the key does not matter.
pub proof fn lemma_highest_overlay_wins(
    base: Seq<FoundView>,
    mods: Seq<ModView>,
    listings: Seq<Seq<FoundView>>,
    key: Seq<char>,
    j: int,
)
    requires
        mods.len() == listings.len(),
        0 <= j < mods.len(),
        provides(listings[j], key),
        forall|a: int, b: int|
            0 <= a < b < mods.len() ==> (#[trigger] mods[a]).priority < (#[trigger] mods[b]).priority,
        forall|i: int|
            0 <= i < mods.len() && provides(#[trigger] listings[i], key) ==> mods[i].priority
                <= mods[j].priority,
    ensures
        last_provider(listings[j], key) is Some,
        with_overlays(with_layer(Map::empty(), base, Layer::Base), mods, listings).dom().contains(
            key,
        ),
        with_overlays(with_layer(Map::empty(), base, Layer::Base), mods, listings)[key]
            == (SourceView::Mod {
            mod_name: mods[j].name,
            mod_priority: mods[j].priority,
            file_path: listings[j][last_provider(listings[j], key)->0].path,
        }),
{
    let below = with_layer(Map::empty(), base, Layer::Base);
    lemma_with_overlays(below, mods, listings, key);
    lemma_top_provider(listings, key);
    lemma_last_provider(listings[j], key);
    let top = top_provider(listings, key);
    assert(top is Some);
    let t = top->0;
    if t != j {
        assert(provides(listings[t], key));
        assert(t > j);
        assert(mods[j].priority < mods[t].priority);
    }
}

/// Where no overlay provides a key, the base tree decides: the namespace
/// holds the last base file with that key, or nothing where there is none.
pub proof fn lemma_base_where_no_overlay(
    base: Seq<FoundView>,
    mods: Seq<ModView>,
    listings: Seq<Seq<FoundView>>,
    key: Seq<char>,
)
    requires
        mods.len() == listings.len(),
        forall|i: int| 0 <= i < listings.len() ==> !provides(#[trigger] listings[i], key),
    ensures
        with_overlays(with_layer(Map::empty(), base, Layer::Base), mods, listings).dom().contains(
            key,
        ) == provides(base, key),
        provides(base, key) ==> last_provider(base, key) is Some && with_overlays(
            with_layer(Map::empty(), base, Layer::Base),
            mods,
            listings,
        )[key] == SourceView::Vanilla(base[last_provider(base, key)->0].path),
{
    let below = with_layer(Map::empty(), base, Layer::Base);
    lemma_with_overlays(below, mods, listings, key);
    lemma_top_provider(listings, key);
    lemma_with_layer(Map::empty(), base, Layer::Base, key);
    lemma_last_provider(base, key);
}

/// Building again over a built namespace changes nothing: the same base
/// tree and overlays, written over the namespace they gave, give it again.
pub proof fn lemma_rebuild_changes_nothing(
    base: Seq<FoundView>,
    mods: Seq<ModView>,
    listings: Seq<Seq<FoundView>>,
)
    requires
        mods.len() == listings.len(),
    ensures
        with_overlays(
            with_layer(
                with_overlays(with_layer(Map::empty(), base, Layer::Base), mods, listings),
                base,
                Layer::Base,
            ),
            mods,
            listings,
        ) == with_overlays(with_layer(Map::empty(), base, Layer::Base), mods, listings),
{
    let first = with_layer(Map::empty(), base, Layer::Base);
    let built = with_overlays(first, mods, listings);
    let second = with_layer(built, base, Layer::Base);
    let again = with_overlays(second, mods, listings);
    assert forall|key: Seq<char>| #[trigger]
        again.dom().contains(key) == built.dom().contains(key) by {
        lemma_with_overlays(first, mods, listings, key);
        lemma_with_overlays(second, mods, listings, key);
        lemma_with_layer(Map::empty(), base, Layer::Base, key);
        lemma_with_layer(built, base, Layer::Base, key);
        lemma_top_provider(listings, key);
    }
    assert forall|key: Seq<char>| built.dom().contains(key) implies #[trigger] again[key]
        == built[key] by {
        lemma_with_overlays(first, mods, listings, key);
        lemma_with_overlays(second, mods, listings, key);
        lemma_with_layer(Map::empty(), base, Layer::Base, key);
        lemma_with_layer(built, base, Layer::Base, key);
        lemma_top_provider(listings, key);
    }
    assert(again =~= built);
}

/// The enabled overlays of a registry whose ranks are positions have ranks
/// that grow along the list.
pub proof fn lemma_enabled_ranks_grow(mods: Seq<ModView>)
    requires
        forall|i: int| 0 <= i < mods.len() ==> (#[trigger] mods[i]).priority == i,
    ensures
        forall|a: int, b: int|
            0 <= a < b < enabled(mods).len() ==> (#[trigger] enabled(mods)[a]).priority < (
            #[trigger] enabled(mods)[b]).priority,
        forall|a: int| 0 <= a < enabled(mods).len() ==> (#[trigger] enabled(mods)[a]).priority
            < mods.len(),
    decreases mods.len(),
{
    if mods.len() > 0 {
        lemma_enabled_ranks_grow(mods.drop_last());
        let before = enabled(mods.drop_last());
        assert forall|a: int| 0 <= a < before.len() implies (#[trigger] before[a]).priority
            < mods.len() - 1 by {}
    }
}

/// The texture indices are the indices of the texture keys, all of them,
/// in ascending order.
pub proof fn lemma_texture_indices(keys: Seq<Seq<char>>)
    ensures
        forall|j: int|
            0 <= j < texture_indices(keys).len() ==> {
                let i = #[trigger] texture_indices(keys)[j];
                0 <= i < keys.len() && is_texture_key(keys[i])
            },
        forall|a: int, b: int|
            0 <= a < b < texture_indices(keys).len() ==> (#[trigger] texture_indices(keys)[a]) < (
            #[trigger] texture_indices(keys)[b]),
        forall|i: int|
            0 <= i < keys.len() && is_texture_key(#[trigger] keys[i]) ==> texture_indices(
                keys,
            ).contains(i),
    decreases keys.len(),
{
    if keys.len() > 0 {
        let rest = keys.drop_last();
        lemma_texture_indices(rest);
        let before = texture_indices(rest);
        let all = texture_indices(keys);
        assert forall|j: int| 0 <= j < all.len() implies {
            let i = #[trigger] all[j];
            0 <= i < keys.len() && is_texture_key(keys[i])
        } by {
            if j < before.len() {
                assert(all[j] == before[j]);
                assert(keys[before[j]] == rest[before[j]]);
            }
        }
        assert forall|a: int, b: int| 0 <= a < b < all.len() implies (#[trigger] all[a]) < (
        #[trigger] all[b]) by {
            assert(all[a] == before[a]);
            if b < before.len() {
                assert(all[b] == before[b]);
            }
        }
        assert forall|i: int| 0 <= i < keys.len() && is_texture_key(
            #[trigger] keys[i],
        ) implies all.contains(i) by {
            if i < rest.len() {
                assert(rest[i] == keys[i]);
                let j = choose|j: int| 0 <= j < before.len() && before[j] == i;
                assert(all[j] == i);
            } else {
                assert(all[all.len() - 1] == i);
            }
        }
    }
}

/// No file of a tree is an archive entry: a layer laid over a map that
/// holds none leaves none in it.
pub proof fn lemma_with_layer_kinds(
    map: Map<Seq<char>, SourceView>,
    files: Seq<FoundView>,
    layer: Layer,
)
    requires
        forall|k: Seq<char>| map.dom().contains(k) ==> !(#[trigger] map[k] is Bsa),
    ensures
        forall|k: Seq<char>| #[trigger]
            with_layer(map, files, layer).dom().contains(k) ==> !(with_layer(map, files, layer)[k]
                is Bsa),
    decreases files.len(),
{
    if files.len() > 0 {
        lemma_with_layer_kinds(map, files.drop_last(), layer);
    }
}

/// A namespace laid together from trees holds no archive entry.
pub proof fn lemma_layered_kinds(
    base: Seq<FoundView>,
    mods: Seq<ModView>,
    listings: Seq<Seq<FoundView>>,
)
    ensures
        forall|k: Seq<char>| #[trigger]
            layered(base, mods, listings).dom().contains(k) ==> !(layered(base, mods, listings)[k]
                is Bsa),
{
    let ground = with_layer(Map::empty(), base, Layer::Base);
    lemma_with_layer_kinds(Map::empty(), base, Layer::Base);
    lemma_with_overlays_kinds(ground, enabled(mods), listings);
}

proof fn lemma_with_overlays_kinds(
    map: Map<Seq<char>, SourceView>,
    mods: Seq<ModView>,
    listings: Seq<Seq<FoundView>>,
)
    requires
        forall|k: Seq<char>| map.dom().contains(k) ==> !(#[trigger] map[k] is Bsa),
    ensures
        forall|k: Seq<char>| #[trigger]
            with_overlays(map, mods, listings).dom().contains(k) ==> !(with_overlays(
                map,
                mods,
                listings,
            )[k] is Bsa),
    decreases mods.len(),
{
    if mods.len() > 0 {
        lemma_with_overlays_kinds(map, mods.drop_last(), listings.drop_last());
        lemma_with_layer_kinds(
            with_overlays(map, mods.drop_last(), listings.drop_last()),
            listings.last(),
            layer_of(mods.last()),
        );
    }
}

proof fn lemma_no_archive_counts(sources: Seq<FileSource>)
    requires
        forall|i: int| 0 <= i < sources.len() ==> !(#[trigger] sources[i] is Bsa),
    ensures
        count_bsa(sources) == 0,
    decreases sources.len(),
{
    if sources.len() > 0 {
        let rest = sources.drop_last();
        assert forall|i: int| 0 <= i < rest.len() implies !(#[trigger] rest[i] is Bsa) by {
            assert(rest[i] == sources[i]);
        }
        lemma_no_archive_counts(rest);
    }
}

/// The merged namespace of a registry.
pub struct VirtualFileSystem {
    file_map: KeyedList<FileSource>,
    profile: Profile,
}

impl VirtualFileSystem {
    /// The list holds every key once.
    pub closed spec fn wf(&self) -> bool {
        self.file_map.wf()
    }

    /// The namespace: the winning source of every key.
    pub closed spec fn view(&self) -> Map<Seq<char>, SourceView> {
        source_views(self.file_map@)
    }

    /// The keys in the order in which they were first written.
    pub closed spec fn keys(&self) -> Seq<Seq<char>> {
        self.file_map.keys()
    }

    /// The sources, aligned with [`Self::keys`].
    pub closed spec fn sources(&self) -> Seq<FileSource> {
        self.file_map.values()
    }

    /// The texture entries, in key order: key and source of every entry
    /// whose key names a texture.
    pub open spec fn texture_entries(&self) -> Seq<(Seq<char>, SourceView)> {
        Seq::new(
            texture_indices(self.keys()).len(),
            |j: int|
                (
                    self.keys()[texture_indices(self.keys())[j]],
                    self.sources()[texture_indices(self.keys())[j]]@,
                ),
        )
    }

    /// The registry the namespace was built from.
    pub closed spec fn registry(&self) -> Profile {
        self.profile
    }

    /// The entry at index `i` is what the namespace holds for its key.
    pub proof fn lemma_entry(&self, i: int)
        requires
            self.wf(),
            0 <= i < self.keys().len(),
        ensures
            self.keys().len() == self.sources().len(),
            self@.dom().contains(self.keys()[i]),
            self@[self.keys()[i]] == self.sources()[i]@,
    {
        self.file_map.lemma_entry(i);
    }

    /// Every key stands once in the list, each with its source beside it,
    /// and the keys are the keys of the namespace.
    pub proof fn lemma_keys(&self)
        requires
            self.wf(),
        ensures
            self.keys().no_duplicates(),
            self.keys().len() == self.sources().len(),
            self@.dom() == self.keys().to_set(),
            self@.dom().finite(),
            self@.dom().len() == self.keys().len(),
    {
        self.file_map.lemma_dom();
        assert(self@.dom() =~= self.file_map@.dom());
        self.keys().unique_seq_to_set();
    }

    /// The texture entries are the texture keys of the namespace, each
    /// once and each with its winning source.
    pub proof fn lemma_texture_entries(&self)
        requires
            self.wf(),
        ensures
            forall|j: int|
                0 <= j < self.texture_entries().len() ==> {
                    let e = #[trigger] self.texture_entries()[j];
                    is_texture_key(e.0) && self@.dom().contains(e.0) && self@[e.0] == e.1
                },
            forall|a: int, b: int|
                0 <= a < b < self.texture_entries().len() ==> (#[trigger] self.texture_entries()[a]).0
                    != (#[trigger] self.texture_entries()[b]).0,
            forall|k: Seq<char>|
                self@.dom().contains(k) && is_texture_key(k) ==> exists|j: int|
                    0 <= j < self.texture_entries().len() && (#[trigger] self.texture_entries()[j])
                        == (k, self@[k]),
    {
        self.lemma_keys();
        lemma_texture_indices(self.keys());
        let at = texture_indices(self.keys());
        let entries = self.texture_entries();
        assert forall|j: int| 0 <= j < entries.len() implies {
            let e = #[trigger] entries[j];
            is_texture_key(e.0) && self@.dom().contains(e.0) && self@[e.0] == e.1
        } by {
            self.lemma_entry(at[j]);
        }
        assert forall|a: int, b: int| 0 <= a < b < entries.len() implies (#[trigger] entries[a]).0
            != (#[trigger] entries[b]).0 by {
            assert(at[a] < at[b]);
        }
        assert forall|k: Seq<char>| self@.dom().contains(k) && is_texture_key(k) implies exists|
            j: int,
        |
            0 <= j < entries.len() && (#[trigger] entries[j]) == (k, self@[k]) by {
            assert(self.keys().to_set().contains(k));
            let i = choose|i: int| 0 <= i < self.keys().len() && self.keys()[i] == k;
            assert(is_texture_key(self.keys()[i]));
            assert(at.contains(i));
            let j = choose|j: int| 0 <= j < at.len() && at[j] == i;
            self.lemma_entry(i);
            assert(entries[j] == (k, self@[k]));
        }
    }

    /// A namespace that was laid together from trees counts no archive
    /// entry: each of its keys is counted once, for the base tree or for
    /// an overlay.
    pub proof fn lemma_built_counts(
        &self,
        base: Seq<FoundView>,
        mods: Seq<ModView>,
        listings: Seq<Seq<FoundView>>,
    )
        requires
            self.wf(),
            self@ == layered(base, mods, listings),
        ensures
            count_bsa(self.sources()) == 0,
            count_vanilla(self.sources()) + count_mod(self.sources()) == self.keys().len(),
            self.sources().len() == self@.dom().len(),
    {
        self.lemma_keys();
        lemma_layered_kinds(base, mods, listings);
        assert forall|i: int| 0 <= i < self.sources().len() implies !(#[trigger] self.sources()[i]
            is Bsa) by {
            self.lemma_entry(i);
            assert(layered(base, mods, listings).dom().contains(self.keys()[i]));
        }
        lemma_no_archive_counts(self.sources());
        lemma_counts_bounded(self.sources());
    }

    /// Builds the namespace of `profile` from the files found in the base
    /// tree and in each enabled overlay: `overlay_files[i]` lists the tree
    /// of the `i`-th enabled overlay by ascending rank. A tree that does
    /// not exist has no files.
    pub fn new(
        profile: Profile,
        base_files: &Vec<FoundFile>,
        overlay_files: &Vec<Vec<FoundFile>>,
    ) -> (r: Result<Self, VfsError>)
        ensures
            match r {
                Ok(vfs) => {
                    &&& overlay_files@.len() == enabled(profile.mods_view()).len()
                    &&& vfs.wf()
                    &&& vfs.registry() == profile
                    &&& vfs@ == layered(
                        found_views(base_files@),
                        profile.mods_view(),
                        listing_views(overlay_files@),
                    )
                },
                Err(e) => overlay_files@.len() != enabled(profile.mods_view()).len() && e
                    == VfsError::ListingMismatch,
            },
    {
        match Self::build_file_map(&profile, base_files, overlay_files) {
            Some(file_map) => Ok(VirtualFileSystem { file_map, profile }),
            None => Err(VfsError::ListingMismatch),
        }
    }

    /// Lays the base tree down and every enabled overlay over it.
    fn build_file_map(
        profile: &Profile,
        base_files: &Vec<FoundFile>,
        overlay_files: &Vec<Vec<FoundFile>>,
    ) -> (r: Option<KeyedList<FileSource>>)
        ensures
            match r {
                Some(map) => {
                    &&& overlay_files@.len() == enabled(profile.mods_view()).len()
                    &&& map.wf()
                    &&& source_views(map@) == layered(
                        found_views(base_files@),
                        profile.mods_view(),
                        listing_views(overlay_files@),
                    )
                },
                None => overlay_files@.len() != enabled(profile.mods_view()).len(),
            },
    {
        let enabled_mods = profile.enabled_mods();
        if enabled_mods.len() != overlay_files.len() {
            return None;
        }
        let mut map: KeyedList<FileSource> = KeyedList::new();
        assert(source_views(map@) == Map::<Seq<char>, SourceView>::empty());
        Self::index_vanilla_files(&mut map, base_files);
        let ghost base_map = source_views(map@);
        let ghost mods = enabled(profile.mods_view());
        let ghost listings = listing_views(overlay_files@);
        let mut i: usize = 0;
        assert(mods.take(0) == Seq::<ModView>::empty());
        while i < enabled_mods.len()
            invariant
                i <= enabled_mods.len(),
                enabled_mods.len() == overlay_files.len(),
                enabled_mods@.map_values(|m: &Mod| m@) == mods,
                listings == listing_views(overlay_files@),
                map.wf(),
                source_views(map@) == with_overlays(
                    base_map,
                    mods.take(i as int),
                    listings.take(i as int),
                ),
            decreases enabled_mods.len() - i,
        {
            proof {
                assert(mods.take(i + 1).drop_last() == mods.take(i as int));
                assert(listings.take(i + 1).drop_last() == listings.take(i as int));
                assert(mods.take(i + 1).last() == enabled_mods@[i as int]@);
                assert(listings.take(i + 1).last() == found_views(overlay_files@[i as int]@));
            }
            Self::index_mod_files(&mut map, enabled_mods[i], &overlay_files[i]);
            i = i + 1;
        }
        assert(mods.take(mods.len() as int) == mods);
        assert(listings.take(listings.len() as int) == listings);
        Some(map)
    }

    /// Writes the files of the base tree into `map`.
    fn index_vanilla_files(map: &mut KeyedList<FileSource>, files: &Vec<FoundFile>)
        requires
            old(map).wf(),
        ensures
            final(map).wf(),
            source_views(final(map)@) == with_layer(
                source_views(old(map)@),
                found_views(files@),
                Layer::Base,
            ),
    {
        let ghost start = source_views(map@);
        let mut i: usize = 0;
        assert(found_views(files@).take(0) == Seq::<FoundView>::empty());
        while i < files.len()
            invariant
                i <= files.len(),
                map.wf(),
                source_views(map@) == with_layer(
                    start,
                    found_views(files@).take(i as int),
                    Layer::Base,
                ),
            decreases files.len() - i,
        {
            proof {
                let upto = found_views(files@).take(i + 1);
                assert(upto.drop_last() == found_views(files@).take(i as int));
                assert(upto.last() == files@[i as int]@);
            }
            let key = normalize(files[i].relative.as_str());
            let source = FileSource::Vanilla(files[i].path.clone());
            let ghost before = map@;
            map.insert(key, source);
            assert(source_views(map@) == source_views(before).insert(key@, source@));
            i = i + 1;
        }
        assert(found_views(files@).take(files.len() as int) == found_views(files@));
    }

    /// Writes the files of one overlay into `map`: each takes the place of
    /// whatever the map held under its key.
    fn index_mod_files(map: &mut KeyedList<FileSource>, mod_entry: &Mod, files: &Vec<FoundFile>)
        requires
            old(map).wf(),
        ensures
            final(map).wf(),
            source_views(final(map)@) == with_layer(
                source_views(old(map)@),
                found_views(files@),
                layer_of(mod_entry@),
            ),
    {
        let ghost start = source_views(map@);
        let mut i: usize = 0;
        assert(found_views(files@).take(0) == Seq::<FoundView>::empty());
        while i < files.len()
            invariant
                i <= files.len(),
                map.wf(),
                source_views(map@) == with_layer(
                    start,
                    found_views(files@).take(i as int),
                    layer_of(mod_entry@),
                ),
            decreases files.len() - i,
        {
            proof {
                let upto = found_views(files@).take(i + 1);
                assert(upto.drop_last() == found_views(files@).take(i as int));
                assert(upto.last() == files@[i as int]@);
            }
            let key = normalize(files[i].relative.as_str());
            let source = FileSource::Mod {
                mod_name: mod_entry.name.clone(),
                mod_priority: mod_entry.priority,
                file_path: files[i].path.clone(),
            };
            let ghost before = map@;
            map.insert(key, source);
            assert(source_views(map@) == source_views(before).insert(key@, source@));
            i = i + 1;
        }
        assert(found_views(files@).take(files.len() as int) == found_views(files@));
    }

    /// The key of a path.
    pub fn normalize_path(&self, path: &str) -> (key: String)
        ensures
            key@ == normalized(path@),
    {
        normalize(path)
    }

    /// The winning source for a path, if the namespace holds its key.
    pub fn get_file(&self, virtual_path: &str) -> (r: Option<&FileSource>)
        requires
            self.wf(),
        ensures
            match r {
                Some(source) => self@.dom().contains(normalized(virtual_path@)) && source@
                    == self@[normalized(virtual_path@)],
                None => !self@.dom().contains(normalized(virtual_path@)),
            },
    {
        let key = normalize(virtual_path);
        self.file_map.get(&key)
    }

    /// The source of a path as `(owner, rank, path)`: the base tree is
    /// owner `Vanilla` with rank 0. The namespace holds one winner per
    /// key, so there is at most one layer to show, and none for a key that
    /// is absent or won by an archive entry.
    pub fn get_file_layers(&self, virtual_path: &str) -> (layers: Vec<(String, usize, String)>)
        requires
            self.wf(),
        ensures
            layers@.len() <= 1,
            layers@.len() == 1 <==> self@.dom().contains(normalized(virtual_path@)) && !(
            self@[normalized(virtual_path@)] is Bsa),
            layers@.len() == 1 ==> match self@[normalized(virtual_path@)] {
                SourceView::Vanilla(p) => layers@[0].0@ == "Vanilla"@ && layers@[0].1 == 0
                    && layers@[0].2@ == p,
                SourceView::Mod { mod_name, mod_priority, file_path } => layers@[0].0@
                    == mod_name && layers@[0].1 == mod_priority && layers@[0].2@ == file_path,
                SourceView::Bsa { .. } => false,
            },
    {
        let mut layers: Vec<(String, usize, String)> = Vec::new();
        match self.get_file(virtual_path) {
            Some(source) => match source {
                FileSource::Vanilla(path) => {
                    layers.push(("Vanilla".to_owned(), 0, path.clone()));
                },
                FileSource::Mod { mod_name, mod_priority, file_path } => {
                    layers.push((mod_name.clone(), *mod_priority, file_path.clone()));
                },
                FileSource::Bsa { .. } => {},
            },
            None => {},
        }
        layers
    }

    /// The texture entries of the namespace, in key order: those whose key
    /// lies under `textures/` and ends in `.dds`.
    pub fn get_texture_files(&self) -> (r: Vec<(&String, &FileSource)>)
        requires
            self.wf(),
        ensures
            r@.len() == texture_indices(self.keys()).len(),
            forall|j: int|
                0 <= j < r@.len() ==> {
                    let i = #[trigger] texture_indices(self.keys())[j];
                    &&& 0 <= i < self.keys().len()
                    &&& r@[j].0@ == self.keys()[i]
                    &&& *r@[j].1 == self.sources()[i]
                },
            entry_views(r@) == self.texture_entries(),
    {
        let mut r: Vec<(&String, &FileSource)> = Vec::new();
        let n = self.file_map.len();
        let mut i: usize = 0;
        assert(self.keys().take(0) == Seq::<Seq<char>>::empty());
        while i < n
            invariant
                i <= n,
                n == self.keys().len(),
                self.wf(),
                r@.len() == texture_indices(self.keys().take(i as int)).len(),
                forall|j: int|
                    0 <= j < r@.len() ==> {
                        let at = #[trigger] texture_indices(self.keys().take(i as int))[j];
                        &&& 0 <= at < i
                        &&& r@[j].0@ == self.keys()[at]
                        &&& *r@[j].1 == self.sources()[at]
                    },
            decreases n - i,
        {
            proof {
                let upto = self.keys().take(i + 1);
                assert(upto.drop_last() == self.keys().take(i as int));
                assert(upto.last() == self.keys()[i as int]);
            }
            let key = self.file_map.key(i);
            if is_texture(key.as_str()) {
                r.push((key, self.file_map.value(i)));
            }
            i = i + 1;
        }
        assert(self.keys().take(n as int) == self.keys());
        assert(entry_views(r@) == self.texture_entries());
        r
    }

    /// How many entries come from the base tree, from overlays and from
    /// archives.
    pub fn get_statistics(&self) -> (stats: VfsStatistics)
        requires
            self.wf(),
        ensures
            stats.total_files == self.sources().len(),
            stats.vanilla_files == count_vanilla(self.sources()),
            stats.mod_files == count_mod(self.sources()),
            stats.bsa_files == count_bsa(self.sources()),
    {
        let n = self.file_map.len();
        let mut vanilla_files: usize = 0;
        let mut mod_files: usize = 0;
        let mut bsa_files: usize = 0;
        let mut i: usize = 0;
        assert(self.sources().take(0) == Seq::<FileSource>::empty());
        while i < n
            invariant
                i <= n,
                n == self.sources().len(),
                self.wf(),
                vanilla_files == count_vanilla(self.sources().take(i as int)),
                mod_files == count_mod(self.sources().take(i as int)),
                bsa_files == count_bsa(self.sources().take(i as int)),
            decreases n - i,
        {
            proof {
                let upto = self.sources().take(i + 1);
                assert(upto.drop_last() == self.sources().take(i as int));
                assert(upto.last() == self.sources()[i as int]);
                lemma_counts_bounded(self.sources().take(i as int));
            }
            match self.file_map.value(i) {
                FileSource::Vanilla(_) => {
                    vanilla_files = vanilla_files + 1;
                },
                FileSource::Mod { .. } => {
                    mod_files = mod_files + 1;
                },
                FileSource::Bsa { .. } => {
                    bsa_files = bsa_files + 1;
                },
            }
            i = i + 1;
        }
        assert(self.sources().take(n as int) == self.sources());
        VfsStatistics { total_files: n, vanilla_files, mod_files, bsa_files }
    }

    /// The registry the namespace was built from.
    pub fn profile(&self) -> (r: &Profile)
        ensures
            *r == self.registry(),
    {
        &self.profile
    }
}

} // verus!
