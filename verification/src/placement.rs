//! Which files of a batch are moved, and into which category directory.

use vstd::prelude::*;
use crate::batch::{FileEntry, FileModel};
use crate::mapping::CategoryMapping;
use crate::sanitize::{
    is_directory_token, lemma_sanitized_is_directory_token, sanitize, sanitized,
};

verus! {

/// One move as the contracts see it.
pub struct PlacementModel {
    /// The path of the file that is moved.
    pub source: Seq<char>,
    /// The name that the file keeps.
    pub name: Seq<char>,
    /// The name of the directory under the target root that receives it.
    pub directory: Seq<char>,
}

/// One move: a file of the batch and the category directory that it goes to.
#[derive(Debug, PartialEq, Eq)]
pub struct Placement {
    /// The path of the file that is moved.
    pub source: String,
    /// The name that the file keeps.
    pub name: String,
    /// The name of the directory under the target root that receives it.
    pub directory: String,
}

impl View for Placement {
    type V = PlacementModel;

    open spec fn view(&self) -> PlacementModel {
        PlacementModel { source: self.source@, name: self.name@, directory: self.directory@ }
    }
}

impl DeepView for Placement {
    type V = PlacementModel;

    open spec fn deep_view(&self) -> PlacementModel {
        self@
    }
}

/// The move of `file` under `mapping`, for a file that the mapping names.
pub open spec fn placement_of(mapping: Map<Seq<char>, Seq<char>>, file: FileModel) -> PlacementModel {
    PlacementModel { source: file.path, name: file.name, directory: sanitized(mapping[file.name]) }
}

/// The moves that `mapping` asks for in `batch`: one for each file whose
/// name the mapping holds, in the batch's order.
pub open spec fn placements_of(
    mapping: Map<Seq<char>, Seq<char>>,
    batch: Seq<FileModel>,
) -> Seq<PlacementModel> {
    batch.filter(|file: FileModel| mapping.contains_key(file.name)).map_values(
        |file: FileModel| placement_of(mapping, file),
    )
}

/// The moves of a batch after its classification: those that the mapping
/// asks for, or none where the classification yielded no mapping.
pub open spec fn placements_after(
    classification: Option<Map<Seq<char>, Seq<char>>>,
    batch: Seq<FileModel>,
) -> Seq<PlacementModel> {
    match classification {
        Some(mapping) => placements_of(mapping, batch),
        None => Seq::empty(),
    }
}

/// The moves that `mapping` asks for in `batch`. A file whose name the
/// mapping lacks is left where it is; every other file goes to the
/// directory named by its sanitized category.
pub fn plan_placement(mapping: &CategoryMapping, batch: &Vec<FileEntry>) -> (moves: Vec<Placement>)
    ensures
        moves.deep_view() == placements_of(mapping@, batch.deep_view()),
        forall|k: int| 0 <= k < moves.len() ==> is_directory_token(#[trigger] moves[k].directory@),
{
    let mut moves: Vec<Placement> = Vec::new();
    let mut i: usize = 0;
    assert(batch.deep_view().take(0) =~= Seq::empty());
    assert(moves.deep_view() =~= Seq::empty());
    assert(placements_of(mapping@, Seq::empty()) =~= Seq::empty());
    while i < batch.len()
        invariant
            i <= batch.len(),
            moves.deep_view() == placements_of(mapping@, batch.deep_view().take(i as int)),
            forall|k: int|
                0 <= k < moves.len() ==> is_directory_token(#[trigger] moves[k].directory@),
        decreases batch.len() - i,
    {
        let file = &batch[i];
        let ghost before = moves.deep_view();
        proof {
            lemma_placements_of_push(mapping@, batch.deep_view().take(i as int), file@);
            assert(batch.deep_view().take(i + 1) =~= batch.deep_view().take(i as int).push(file@));
        }
        match mapping.get(file.name.as_str()) {
            Some(category) => {
                let directory = sanitize(category.as_str());
                moves.push(
                    Placement { source: file.path.clone(), name: file.name.clone(), directory },
                );
                assert(moves.deep_view() =~= before.push(placement_of(mapping@, file@)));
            },
            None => {},
        }
        i = i + 1;
    }
    assert(batch.deep_view().take(i as int) =~= batch.deep_view());
    moves
}

/// The moves of a batch once its classification has ended: those of the
/// mapping it yielded, or none at all where it yielded nothing, so that a
/// batch whose classification failed is left untouched.
pub fn placements_for(classification: &Option<CategoryMapping>, batch: &Vec<FileEntry>) -> (moves:
    Vec<Placement>)
    ensures
        moves.deep_view() == placements_after(
            match classification {
                Some(mapping) => Some(mapping@),
                None => None,
            },
            batch.deep_view(),
        ),
        forall|k: int| 0 <= k < moves.len() ==> is_directory_token(#[trigger] moves[k].directory@),
{
    match classification {
        Some(mapping) => plan_placement(mapping, batch),
        None => {
            let moves: Vec<Placement> = Vec::new();
            assert(moves.deep_view() =~= Seq::empty());
            moves
        },
    }
}

/// Adding a file to a batch adds its move exactly when the mapping names
/// the file.
pub proof fn lemma_placements_of_push(
    mapping: Map<Seq<char>, Seq<char>>,
    batch: Seq<FileModel>,
    file: FileModel,
)
    ensures
        placements_of(mapping, batch.push(file)) == if mapping.contains_key(file.name) {
            placements_of(mapping, batch).push(placement_of(mapping, file))
        } else {
            placements_of(mapping, batch)
        },
{
    reveal(Seq::filter);
    assert(batch.push(file).drop_last() == batch);
    let kept = batch.filter(|file: FileModel| mapping.contains_key(file.name));
    if mapping.contains_key(file.name) {
        assert(kept.push(file).map_values(|file: FileModel| placement_of(mapping, file))
            =~= kept.map_values(|file: FileModel| placement_of(mapping, file)).push(
            placement_of(mapping, file),
        ));
    }
}

/// Every move takes a file of the batch that the mapping names, keeps its
/// name, and leads to a directory named by the sanitized category.
pub proof fn lemma_placements_come_from_mapped_files(
    mapping: Map<Seq<char>, Seq<char>>,
    batch: Seq<FileModel>,
    k: int,
)
    requires
        0 <= k < placements_of(mapping, batch).len(),
    ensures
        exists|i: int|
            0 <= i < batch.len() && mapping.contains_key(#[trigger] batch[i].name)
                && placements_of(mapping, batch)[k] == placement_of(mapping, batch[i]),
        is_directory_token(placements_of(mapping, batch)[k].directory),
{
    let pred = |file: FileModel| mapping.contains_key(file.name);
    let kept = batch.filter(pred);
    batch.lemma_filter_pred(pred, k);
    batch.lemma_filter_contains_rev(pred, kept[k]);
    let i = choose|i: int| 0 <= i < batch.len() && batch[i] == kept[k];
    assert(mapping.contains_key(batch[i].name));
    lemma_sanitized_is_directory_token(mapping[kept[k].name]);
}

/// A file whose name the mapping lacks is not moved: no move has the name
/// of such a file.
pub proof fn lemma_unmapped_file_stays(
    mapping: Map<Seq<char>, Seq<char>>,
    batch: Seq<FileModel>,
    name: Seq<char>,
)
    requires
        !mapping.contains_key(name),
    ensures
        forall|k: int|
            0 <= k < placements_of(mapping, batch).len() ==> (#[trigger] placements_of(
                mapping,
                batch,
            )[k]).name != name,
{
    assert forall|k: int| 0 <= k < placements_of(mapping, batch).len() implies (
    #[trigger] placements_of(mapping, batch)[k]).name != name by {
        lemma_placements_come_from_mapped_files(mapping, batch, k);
    }
}

/// A batch whose classification yielded nothing has no move at all.
pub proof fn lemma_failed_batch_is_untouched(batch: Seq<FileModel>)
    ensures
        placements_after(None, batch).len() == 0,
{
}

} // verus!
