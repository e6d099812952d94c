//! Discovery over all the files of a source tree, and the fold of the
//! entries into the three collections.

use crate::entry::{
    entry_views, in_turn, outcome_view, path_views, DiscoverType, DiscoverTypeView,
    DiscoveryError, DiscoveryErrorView, DiscoveryResult, DiscoveryResultView,
};
use crate::marker::{Parameters, ParametersView};
use crate::path::QualifiedPath;
use crate::reading::{readings_at, Reading};
use crate::syntax::{declaration_views, source_file_views, SourceFile, SourceFileView};
use crate::walk::{module_entries, parse_module_items};
use vstd::prelude::*;

verus! {

/// The entries of all the files, in the order of the files, or the first
/// failure met in that order. `readings` holds what was read of the
/// declarations of each file.
pub open spec fn files_entries(
    files: Seq<SourceFileView>,
    readings: Seq<Seq<Reading>>,
    params: ParametersView,
) -> Result<Seq<DiscoverTypeView>, DiscoveryErrorView>
    decreases files.len(),
{
    if files.len() == 0 {
        Ok(Seq::empty())
    } else {
        in_turn(
            files_entries(files.drop_last(), readings, params),
            module_entries(
                files.last().items,
                readings_at(readings, files.len() - 1),
                files.last().namespace,
                params,
            ),
        )
    }
}

/// The test that an entry goes to the operations.
pub open spec fn goes_to_operations() -> spec_fn(DiscoverTypeView) -> bool {
    |e: DiscoverTypeView| e.is_operation()
}

/// The test that an entry goes to the models.
pub open spec fn goes_to_models() -> spec_fn(DiscoverTypeView) -> bool {
    |e: DiscoverTypeView| e.is_model()
}

/// The test that an entry goes to the responses.
pub open spec fn goes_to_responses() -> spec_fn(DiscoverTypeView) -> bool {
    |e: DiscoverTypeView| e.is_response()
}

/// The paths of the entries that pass `test`, in the order of the entries.
pub open spec fn paths_where(
    entries: Seq<DiscoverTypeView>,
    test: spec_fn(DiscoverTypeView) -> bool,
) -> Seq<Seq<Seq<char>>> {
    entries.filter(test).map_values(|e: DiscoverTypeView| e.path())
}

/// The three collections that `entries` fold into. Each keeps the order of
/// the entries, and nothing is left out or merged.
pub open spec fn aggregate(entries: Seq<DiscoverTypeView>) -> DiscoveryResultView {
    DiscoveryResultView {
        operations: paths_where(entries, goes_to_operations()),
        models: paths_where(entries, goes_to_models()),
        responses: paths_where(entries, goes_to_responses()),
    }
}

/// What a run returns: a collection failure that names `src_path` where no
/// files were collected, else the failure of the walk, else the three
/// collections. `readings` holds what was read of the declarations of each
/// file.
pub open spec fn discovery(
    src_path: Seq<char>,
    files: Option<Seq<SourceFileView>>,
    readings: Seq<Seq<Reading>>,
    params: ParametersView,
) -> Result<DiscoveryResultView, DiscoveryErrorView> {
    match files {
        Some(collected) => match files_entries(collected, readings, params) {
            Ok(entries) => Ok(aggregate(entries)),
            Err(error) => Err(error),
        },
        None => Err(DiscoveryErrorView::CollectionFailure { path: src_path }),
    }
}

/// The view of what the collection gave.
pub open spec fn collected_view(files: Option<Vec<SourceFile>>) -> Option<Seq<SourceFileView>> {
    match files {
        Some(collected) => Some(source_file_views(collected@)),
        None => None,
    }
}

/// The view of what a run returns.
pub open spec fn run_view(outcome: Result<DiscoveryResult, DiscoveryError>) -> Result<
    DiscoveryResultView,
    DiscoveryErrorView,
> {
    match outcome {
        Ok(result) => Ok(result@),
        Err(error) => Err(error@),
    }
}

/// A failure among the first `seen` files is the failure of all of them.
pub proof fn lemma_file_failure_stays(
    files: Seq<SourceFileView>,
    readings: Seq<Seq<Reading>>,
    seen: int,
    params: ParametersView,
)
    requires
        0 <= seen <= files.len(),
        files_entries(files.take(seen), readings, params) is Err,
    ensures
        files_entries(files, readings, params) == files_entries(files.take(seen), readings, params),
    decreases files.len() - seen,
{
    if seen < files.len() {
        assert(files.take(seen + 1).drop_last() =~= files.take(seen));
        lemma_file_failure_stays(files, readings, seen + 1, params);
    } else {
        assert(files.take(seen) =~= files);
    }
}

/// The entries of files depend on the readings of these files alone.
pub proof fn lemma_same_file_readings(
    files: Seq<SourceFileView>,
    first: Seq<Seq<Reading>>,
    second: Seq<Seq<Reading>>,
    params: ParametersView,
)
    requires
        forall|i: int| 0 <= i < files.len() ==> readings_at(first, i) == readings_at(second, i),
    ensures
        files_entries(files, first, params) == files_entries(files, second, params),
    decreases files.len(),
{
    if files.len() > 0 {
        lemma_same_file_readings(files.drop_last(), first, second, params);
    }
}

/// One more entry at the end adds its path to the paths that pass `test`, if
/// it passes.
pub proof fn lemma_paths_where_push(
    entries: Seq<DiscoverTypeView>,
    last: DiscoverTypeView,
    test: spec_fn(DiscoverTypeView) -> bool,
)
    ensures
        paths_where(entries.push(last), test) == if test(last) {
            paths_where(entries, test).push(last.path())
        } else {
            paths_where(entries, test)
        },
{
    entries.lemma_filter_push(last, test);
}

/// Walks every file in turn and returns all the entries, file by file, or
/// the failure of the first walk that fails.
///
/// The outcome is that of the files under some reading of their
/// declarations.
pub fn collect_entries(files: &Vec<SourceFile>, params: &Parameters) -> (outcome: Result<
    Vec<DiscoverType>,
    DiscoveryError,
>)
    ensures
        exists|readings: Seq<Seq<Reading>>|
            outcome_view(outcome) == #[trigger] files_entries(
                source_file_views(files@),
                readings,
                params@,
            ),
{
    let mut out: Vec<DiscoverType> = Vec::new();
    let ghost all = source_file_views(files@);
    let ghost mut readings: Seq<Seq<Reading>> = Seq::empty();
    let mut i: usize = 0;
    assert(entry_views(out@) =~= Seq::empty());
    while i < files.len()
        invariant
            i <= files.len(),
            all == source_file_views(files@),
            readings.len() == i,
            files_entries(all.take(i as int), readings, params@) == Ok::<
                Seq<DiscoverTypeView>,
                DiscoveryErrorView,
            >(entry_views(out@)),
        decreases files.len() - i,
    {
        let walked = parse_module_items(&files[i].namespace, &files[i].items, params);
        proof {
            let read = choose|read: Seq<Reading>|
                outcome_view(walked) == #[trigger] module_entries(
                    declaration_views(files[i as int].items@),
                    read,
                    files[i as int].namespace@,
                    params@,
                );
            let before = readings;
            readings = readings.push(read);
            assert(all.take(i + 1).drop_last() =~= all.take(i as int));
            lemma_same_file_readings(all.take(i as int), before, readings, params@);
        }
        match walked {
            Ok(mut entries) => {
                let ghost before = out@;
                let ghost added = entries@;
                out.append(&mut entries);
                assert(entry_views(out@) =~= entry_views(before) + entry_views(added));
            },
            Err(error) => {
                proof {
                    lemma_file_failure_stays(all, readings, i + 1, params@);
                }
                return Err(error);
            },
        }
        i += 1;
    }
    assert(all.take(i as int) =~= all);
    Ok(out)
}

/// Folds the entries into the three collections: operations, models and
/// responses.
pub fn aggregate_entries(entries: Vec<DiscoverType>) -> (result: DiscoveryResult)
    ensures
        result@ == aggregate(entry_views(entries@)),
{
    let mut operations: Vec<QualifiedPath> = Vec::new();
    let mut models: Vec<QualifiedPath> = Vec::new();
    let mut responses: Vec<QualifiedPath> = Vec::new();
    let ghost all = entry_views(entries@);
    proof {
        reveal(Seq::filter);
    }
    for entry in it: entries
        invariant
            all == entry_views(it.seq()),
            path_views(operations@) == paths_where(all.take(it.index() as int), goes_to_operations()),
            path_views(models@) == paths_where(all.take(it.index() as int), goes_to_models()),
            path_views(responses@) == paths_where(all.take(it.index() as int), goes_to_responses()),
    {
        proof {
            let k = it.index() as int;
            assert(all.take(k + 1) =~= all.take(k).push(entry@));
            lemma_paths_where_push(all.take(k), entry@, goes_to_operations());
            lemma_paths_where_push(all.take(k), entry@, goes_to_models());
            lemma_paths_where_push(all.take(k), entry@, goes_to_responses());
        }
        match entry {
            DiscoverType::Fn(path) => operations.push(path),
            DiscoverType::Model(path) => models.push(path),
            DiscoverType::Response(path) => responses.push(path),
            DiscoverType::CustomModelImpl(path) => models.push(path),
            DiscoverType::CustomResponseImpl(path) => responses.push(path),
        }
    }
    assert(all.take(all.len() as int) =~= all);
    DiscoveryResult { operations, models, responses }
}

/// Discovers everything in the files collected under `src_path`.
///
/// `files` is what the collection gave: every file with its namespace path,
/// or `None` where the files could not be collected. The outcome is that of
/// the run under some reading of the declarations.
pub fn discover_from_file(
    src_path: String,
    files: Option<Vec<SourceFile>>,
    params: &Parameters,
) -> (outcome: Result<DiscoveryResult, DiscoveryError>)
    ensures
        exists|readings: Seq<Seq<Reading>>|
            run_view(outcome) == #[trigger] discovery(
                src_path@,
                collected_view(files),
                readings,
                params@,
            ),
        files is None ==> run_view(outcome) == Err::<DiscoveryResultView, DiscoveryErrorView>(
            DiscoveryErrorView::CollectionFailure { path: src_path@ },
        ),
{
    let ghost path = src_path@;
    let ghost given = collected_view(files);
    match files {
        Some(collected) => {
            let walked = collect_entries(&collected, params);
            let ghost readings = choose|readings: Seq<Seq<Reading>>|
                outcome_view(walked) == #[trigger] files_entries(
                    source_file_views(collected@),
                    readings,
                    params@,
                );
            let outcome = match walked {
                Ok(entries) => Ok(aggregate_entries(entries)),
                Err(error) => Err(error),
            };
            assert(run_view(outcome) == discovery(path, given, readings, params@));
            outcome
        },
        None => {
            let outcome = Err(DiscoveryError::CollectionFailure { path: src_path });
            assert(run_view(outcome) == discovery(path, given, Seq::empty(), params@));
            outcome
        },
    }
}

} // verus!
