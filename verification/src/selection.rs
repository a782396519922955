//! Which textures of the catalog are to be optimized.
//!
//! A texture is taken where no rule excludes it, its header and category
//! are known, and it is larger than the preset allows.

use vstd::prelude::*;
use crate::database::discovery::{bump, bumped, record_seq_views, Catalog};
use crate::database::texture_record::{has_header, RecordView, TextureRecord};
use crate::exclusions::{excluded, ExclusionList};
use crate::presets::{limit_for, target_of, OptimizationPreset};
use crate::text::lowercase_of;

verus! {

/// A texture to optimize: key, record, target width and target height.
pub type Selected = (String, TextureRecord, u32, u32);

/// A [`Selected`] as character sequences.
pub type SelectedView = (Seq<char>, RecordView, u32, u32);

/// The views of selected textures.
pub open spec fn selected_views(items: Seq<Selected>) -> Seq<SelectedView> {
    items.map_values(|t: Selected| (t.0@, t.1@, t.2, t.3))
}

/// What is decided of one texture.
pub enum Verdict {
    Excluded,
    NoHeader,
    NoType,
    AlreadyOptimal,
    Optimize(u32, u32),
}

/// The rules in force, as character sequences; none where no rule file
/// was found.
pub struct RulesView {
    pub patterns: Seq<Seq<char>>,
    pub paths: Seq<Seq<char>>,
    pub exacts: Seq<Seq<char>>,
}

/// The view of optional rules.
pub open spec fn rules_view(exclusions: Option<&ExclusionList>) -> Option<RulesView> {
    match exclusions {
        Some(list) => Some(
            RulesView {
                patterns: list.patterns_view(),
                paths: list.paths_view(),
                exacts: list.exacts_view(),
            },
        ),
        None => None,
    }
}

/// Whether the rules in force exclude a key.
pub open spec fn ruled_out(rules: Option<RulesView>, key: Seq<char>) -> bool {
    match rules {
        Some(r) => excluded(r.patterns, r.paths, r.exacts, lowercase_of(key)),
        None => false,
    }
}

/// What is decided of a texture. The rules are asked first, then the
/// header, then the category, then the preset.
pub open spec fn verdict(
    rules: Option<RulesView>,
    preset: OptimizationPreset,
    key: Seq<char>,
    record: RecordView,
) -> Verdict {
    if ruled_out(rules, key) {
        Verdict::Excluded
    } else if !has_header(record) {
        Verdict::NoHeader
    } else if record.texture_type is None {
        Verdict::NoType
    } else {
        match target_of(
            limit_for(preset, record.texture_type->0),
            record.width->0,
            record.height->0,
        ) {
            Some((width, height)) => Verdict::Optimize(width, height),
            None => Verdict::AlreadyOptimal,
        }
    }
}

/// What the selection took and what it passed over.
#[derive(Debug)]
pub struct FilterOutcome {
    pub needs_optimization: Vec<Selected>,
    pub skipped_excluded: usize,
    pub skipped_no_header: usize,
    pub skipped_no_type: usize,
    pub skipped_already_optimized: usize,
}

/// A [`FilterOutcome`] as sequences.
pub struct OutcomeView {
    pub needs_optimization: Seq<SelectedView>,
    pub skipped_excluded: usize,
    pub skipped_no_header: usize,
    pub skipped_no_type: usize,
    pub skipped_already_optimized: usize,
}

impl View for FilterOutcome {
    type V = OutcomeView;

    open spec fn view(&self) -> OutcomeView {
        OutcomeView {
            needs_optimization: selected_views(self.needs_optimization@),
            skipped_excluded: self.skipped_excluded,
            skipped_no_header: self.skipped_no_header,
            skipped_no_type: self.skipped_no_type,
            skipped_already_optimized: self.skipped_already_optimized,
        }
    }
}

/// `outcome` after one more texture was decided.
pub open spec fn with_verdict(
    outcome: OutcomeView,
    key: Seq<char>,
    record: RecordView,
    decided: Verdict,
) -> OutcomeView {
    match decided {
        Verdict::Excluded => OutcomeView {
            skipped_excluded: bump(outcome.skipped_excluded),
            ..outcome
        },
        Verdict::NoHeader => OutcomeView {
            skipped_no_header: bump(outcome.skipped_no_header),
            ..outcome
        },
        Verdict::NoType => OutcomeView {
            skipped_no_type: bump(outcome.skipped_no_type),
            ..outcome
        },
        Verdict::AlreadyOptimal => OutcomeView {
            skipped_already_optimized: bump(outcome.skipped_already_optimized),
            ..outcome
        },
        Verdict::Optimize(width, height) => OutcomeView {
            needs_optimization: outcome.needs_optimization.push((key, record, width, height)),
            ..outcome
        },
    }
}

/// The outcome for the given textures, in order.
pub open spec fn selection(
    rules: Option<RulesView>,
    preset: OptimizationPreset,
    keys: Seq<Seq<char>>,
    records: Seq<RecordView>,
) -> OutcomeView
    decreases records.len(),
{
    if records.len() == 0 {
        OutcomeView {
            needs_optimization: Seq::empty(),
            skipped_excluded: 0,
            skipped_no_header: 0,
            skipped_no_type: 0,
            skipped_already_optimized: 0,
        }
    } else {
        let key = keys[records.len() - 1];
        with_verdict(
            selection(rules, preset, keys, records.drop_last()),
            key,
            records.last(),
            verdict(rules, preset, key, records.last()),
        )
    }
}

/// Selects the textures of the catalog that are to be optimized, with
/// their target sizes, and counts the others by the reason they were
/// passed over.
pub fn filter_textures(
    textures: &Catalog,
    exclusions: Option<&ExclusionList>,
    preset: &OptimizationPreset,
) -> (outcome: FilterOutcome)
    requires
        textures.wf(),
        preset.wf(),
    ensures
        outcome@ == selection(
            rules_view(exclusions),
            *preset,
            textures.keys(),
            record_seq_views(textures.values()),
        ),
{
    let mut outcome = FilterOutcome {
        needs_optimization: Vec::new(),
        skipped_excluded: 0,
        skipped_no_header: 0,
        skipped_no_type: 0,
        skipped_already_optimized: 0,
    };
    let ghost rules = rules_view(exclusions);
    let ghost records = record_seq_views(textures.values());
    let n = textures.len();
    let mut i: usize = 0;
    assert(records.take(0) == Seq::<RecordView>::empty());
    assert(selected_views(outcome.needs_optimization@) == Seq::<SelectedView>::empty());
    while i < n
        invariant
            i <= n,
            n == records.len(),
            textures.wf(),
            preset.wf(),
            rules == rules_view(exclusions),
            records == record_seq_views(textures.values()),
            outcome@ == selection(rules, *preset, textures.keys(), records.take(i as int)),
        decreases n - i,
    {
        let key = textures.key(i);
        let record = textures.value(i);
        proof {
            let upto = records.take(i + 1);
            assert(upto.drop_last() == records.take(i as int));
            assert(upto.last() == record@);
        }
        let ghost before = outcome@;
        let is_excluded = match exclusions {
            Some(list) => list.should_exclude(key.as_str()),
            None => false,
        };
        if is_excluded {
            outcome.skipped_excluded = bumped(outcome.skipped_excluded);
        } else if !record.has_header_info() {
            outcome.skipped_no_header = bumped(outcome.skipped_no_header);
        } else {
            match (&record.texture_type, record.width, record.height) {
                (Some(texture_type), Some(width), Some(height)) => {
                    match preset.get_target_resolution(texture_type.as_str(), width, height) {
                        Some((target_width, target_height)) => {
                            let ghost taken = outcome.needs_optimization@;
                            let item = (key.clone(), record.duplicate(), target_width, target_height);
                            outcome.needs_optimization.push(item);
                            assert(selected_views(outcome.needs_optimization@) == selected_views(
                                taken,
                            ).push((key@, record@, target_width, target_height)));
                        },
                        None => {
                            outcome.skipped_already_optimized = bumped(
                                outcome.skipped_already_optimized,
                            );
                        },
                    }
                },
                _ => {
                    outcome.skipped_no_type = bumped(outcome.skipped_no_type);
                },
            }
        }
        assert(outcome@ == with_verdict(
            before,
            key@,
            record@,
            verdict(rules, *preset, key@, record@),
        ));
        i = i + 1;
    }
    assert(records.take(n as int) == records);
    outcome
}

} // verus!
