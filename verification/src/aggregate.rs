//! Grouping the records of a response by headword.
//!
//! Groups come in the order in which their headwords are first seen, and the
//! records of a group keep the order of the response.

use crate::decode::{pronunciation_model, LookupRecord, PronunciationResult, RecordModel};
use vstd::prelude::*;
use vstd::string::*;

verus! {

/// The records that share one headword.
#[derive(Clone, Debug, PartialEq, Eq)]
pub struct WordGroup {
    pub headword: String,
    /// The pronunciation that was fetched for the word that was looked up. It
    /// is the same in every group of one lookup.
    pub pronunciation: Option<PronunciationResult>,
    pub records: Vec<LookupRecord>,
}

/// A group, as plain values.
pub struct GroupModel {
    pub headword: Seq<char>,
    pub pronunciation: Option<Seq<char>>,
    pub records: Seq<RecordModel>,
}

impl View for WordGroup {
    type V = GroupModel;

    open spec fn view(&self) -> GroupModel {
        GroupModel {
            headword: self.headword@,
            pronunciation: pronunciation_model(self.pronunciation),
            records: self.records.deep_view(),
        }
    }
}

impl DeepView for WordGroup {
    type V = GroupModel;

    open spec fn deep_view(&self) -> GroupModel {
        self@
    }
}

/// The headwords of `records`, each once, in the order of first appearance.
pub open spec fn headwords_of(records: Seq<RecordModel>) -> Seq<Seq<char>>
    decreases records.len(),
{
    if records.len() == 0 {
        Seq::empty()
    } else {
        let before = headwords_of(records.drop_last());
        if before.contains(records.last().headword) {
            before
        } else {
            before.push(records.last().headword)
        }
    }
}

/// The records of `records` that bear `headword`, in their order.
pub open spec fn records_under(records: Seq<RecordModel>, headword: Seq<char>) -> Seq<RecordModel>
    decreases records.len(),
{
    if records.len() == 0 {
        Seq::empty()
    } else {
        let before = records_under(records.drop_last(), headword);
        if records.last().headword == headword {
            before.push(records.last())
        } else {
            before
        }
    }
}

/// The groups of `records`: one for each headword, in the order of first
/// appearance, each with the records that bear its headword and with the one
/// pronunciation of the lookup.
pub open spec fn grouped(records: Seq<RecordModel>, pronunciation: Option<Seq<char>>) -> Seq<
    GroupModel,
> {
    let headwords = headwords_of(records);
    Seq::new(
        headwords.len(),
        |g: int|
            GroupModel {
                headword: headwords[g],
                pronunciation,
                records: records_under(records, headwords[g]),
            },
    )
}

/// The index at which `headword` stands in `headwords`.
pub open spec fn is_index_of(headwords: Seq<Seq<char>>, at: int, headword: Seq<char>) -> bool {
    0 <= at < headwords.len() && headwords[at] == headword
}

/// No headword stands twice among the headwords of `records`, each of them is
/// the headword of a record, and each record's headword is among them.
pub proof fn lemma_headwords(records: Seq<RecordModel>)
    ensures
        forall|a: int, b: int|
            0 <= a < b < headwords_of(records).len() ==> headwords_of(records)[a] != headwords_of(
                records,
            )[b],
        forall|g: int|
            0 <= g < headwords_of(records).len() ==> exists|i: int|
                0 <= i < records.len() && records[i].headword == #[trigger] headwords_of(
                    records,
                )[g],
        forall|i: int|
            0 <= i < records.len() ==> headwords_of(records).contains(
                #[trigger] records[i].headword,
            ),
    decreases records.len(),
{
    if records.len() > 0 {
        let front = records.drop_last();
        let last = records.last();
        lemma_headwords(front);
        let before = headwords_of(front);
        let all = headwords_of(records);
        assert forall|g: int| 0 <= g < all.len() implies exists|i: int|
            0 <= i < records.len() && records[i].headword == #[trigger] all[g] by {
            if g < before.len() {
                let i = choose|i: int| 0 <= i < front.len() && front[i].headword == before[g];
                assert(records[i].headword == all[g]);
            } else {
                assert(records[records.len() - 1].headword == all[g]);
            }
        }
        assert forall|i: int| 0 <= i < records.len() implies all.contains(
            #[trigger] records[i].headword,
        ) by {
            if i < front.len() {
                assert(front[i].headword == records[i].headword);
                let g = choose|g: int| 0 <= g < before.len() && before[g] == front[i].headword;
                assert(all[g] == records[i].headword);
            } else {
                if before.contains(last.headword) {
                } else {
                    assert(all[all.len() - 1] == last.headword);
                }
            }
        }
    }
}

/// What one more record does to the groups: it joins the group of its
/// headword, or opens a new group at the end.
pub proof fn lemma_grouped_push(
    records: Seq<RecordModel>,
    record: RecordModel,
    pronunciation: Option<Seq<char>>,
)
    ensures
        ({
            let before = grouped(records, pronunciation);
            let after = grouped(records.push(record), pronunciation);
            if exists|g: int| is_index_of(headwords_of(records), g, record.headword) {
                let g = choose|g: int| is_index_of(headwords_of(records), g, record.headword);
                after == before.update(
                    g,
                    GroupModel { records: before[g].records.push(record), ..before[g] },
                )
            } else {
                after == before.push(
                    GroupModel { headword: record.headword, pronunciation, records: seq![record] },
                )
            }
        }),
{
    let longer = records.push(record);
    assert(longer.drop_last() =~= records);
    assert(longer.last() == record);
    let heads = headwords_of(records);
    let before = grouped(records, pronunciation);
    let after = grouped(longer, pronunciation);
    lemma_headwords(records);
    if exists|g: int| is_index_of(heads, g, record.headword) {
        let g = choose|g: int| is_index_of(heads, g, record.headword);
        assert(heads.contains(record.headword));
        assert(headwords_of(longer) == heads);
        let expected = before.update(
            g,
            GroupModel { records: before[g].records.push(record), ..before[g] },
        );
        assert forall|k: int| 0 <= k < after.len() implies after[k] == expected[k] by {
            if k != g {
                assert(heads[k] != heads[g]);
            }
        }
        assert(after =~= expected);
    } else {
        assert(!heads.contains(record.headword)) by {
            if heads.contains(record.headword) {
                let g = choose|g: int| 0 <= g < heads.len() && heads[g] == record.headword;
                assert(is_index_of(heads, g, record.headword));
            }
        }
        assert(headwords_of(longer) == heads.push(record.headword));
        let expected = before.push(
            GroupModel { headword: record.headword, pronunciation, records: seq![record] },
        );
        lemma_records_under_absent(records, record.headword);
        assert forall|k: int| 0 <= k < after.len() implies after[k] == expected[k] by {
            if k < heads.len() {
                assert(heads[k] != record.headword) by {
                    if heads[k] == record.headword {
                        assert(is_index_of(heads, k, record.headword));
                    }
                }
            } else {
                assert(records_under(longer, record.headword) =~= seq![record]);
            }
        }
        assert(after =~= expected);
    }
}

/// A headword that no record bears has no records under it.
pub proof fn lemma_records_under_absent(records: Seq<RecordModel>, headword: Seq<char>)
    requires
        !headwords_of(records).contains(headword),
    ensures
        records_under(records, headword).len() == 0,
    decreases records.len(),
{
    if records.len() > 0 {
        lemma_headwords(records);
        let last = records.len() - 1;
        assert(headwords_of(records).contains(records[last].headword));
        let before = headwords_of(records.drop_last());
        assert(!before.contains(headword)) by {
            if before.contains(headword) {
                let g = choose|g: int| 0 <= g < before.len() && before[g] == headword;
                assert(headwords_of(records)[g] == headword);
            }
        }
        lemma_records_under_absent(records.drop_last(), headword);
    }
}

/// The index of the group that bears `headword`.
fn find_group(groups: &Vec<WordGroup>, headword: &String) -> (found: Option<usize>)
    ensures
        match found {
            Some(g) => g < groups.len() && groups@[g as int].headword@ == headword@,
            None => forall|k: int| 0 <= k < groups.len() ==> groups@[k].headword@ != headword@,
        },
{
    let mut g: usize = 0;
    while g < groups.len()
        invariant
            g <= groups.len(),
            forall|k: int| 0 <= k < g ==> groups@[k].headword@ != headword@,
        decreases groups.len() - g,
    {
        if groups[g].headword == *headword {
            return Some(g);
        }
        g += 1;
    }
    None
}

/// A second optional pronunciation that holds the same transcription.
fn duplicate_pronunciation(pronunciation: &Option<PronunciationResult>) -> (copy: Option<
    PronunciationResult,
>)
    ensures
        pronunciation_model(copy) == pronunciation_model(*pronunciation),
{
    match pronunciation {
        Some(pronunciation) => Some(
            PronunciationResult { raw_transcription: pronunciation.raw_transcription.clone() },
        ),
        None => None,
    }
}

/// Groups `records` by headword and attaches `pronunciation` to every group.
///
/// Two records are in the same group exactly when their headwords are the
/// same string. The groups stand in the order in which their headwords first
/// appear in `records`, and within a group the records keep the order they
/// have in `records`.
pub fn aggregate(
    records: &Vec<LookupRecord>,
    pronunciation: &Option<PronunciationResult>,
) -> (groups: Vec<WordGroup>)
    ensures
        groups.deep_view() == grouped(records.deep_view(), pronunciation_model(*pronunciation)),
{
    let ghost source = records.deep_view();
    let ghost spoken = pronunciation_model(*pronunciation);
    let mut groups: Vec<WordGroup> = Vec::new();
    let mut i: usize = 0;
    assert(source.take(0) =~= Seq::empty());
    assert(groups.deep_view() =~= grouped(source.take(0), spoken));
    while i < records.len()
        invariant
            i <= records.len(),
            source == records.deep_view(),
            spoken == pronunciation_model(*pronunciation),
            groups.deep_view() == grouped(source.take(i as int), spoken),
        decreases records.len() - i,
    {
        let record = records[i].duplicate();
        let ghost seen = source.take(i as int);
        let ghost before = groups.deep_view();
        proof {
            assert(source.take(i + 1) =~= seen.push(record@));
            lemma_grouped_push(seen, record@, spoken);
            assert(before.len() == headwords_of(seen).len());
            assert forall|k: int| 0 <= k < before.len() implies before[k].headword
                == headwords_of(seen)[k] by {}
        }
        match find_group(&groups, &record.headword) {
            Some(g) => {
                proof {
                    assert(before[g as int].headword == record@.headword);
                    assert(is_index_of(headwords_of(seen), g as int, record@.headword));
                    lemma_headwords(seen);
                    let chosen = choose|k: int|
                        is_index_of(headwords_of(seen), k, record@.headword);
                    assert(chosen == g);
                }
                let ghost old_records = groups@[g as int].records.deep_view();
                groups[g].records.push(record);
                proof {
                    assert(groups@[g as int].records.deep_view() =~= old_records.push(record@));
                    assert(groups.deep_view() =~= before.update(
                        g as int,
                        GroupModel {
                            records: before[g as int].records.push(record@),
                            ..before[g as int]
                        },
                    ));
                }
            },
            None => {
                proof {
                    assert(!exists|k: int| is_index_of(headwords_of(seen), k, record@.headword))
                        by {
                        if exists|k: int| is_index_of(headwords_of(seen), k, record@.headword) {
                            let k = choose|k: int|
                                is_index_of(headwords_of(seen), k, record@.headword);
                            assert(before[k].headword == record@.headword);
                            assert(groups@[k].headword@ == record.headword@);
                        }
                    }
                }
                let headword = record.headword.clone();
                let mut members: Vec<LookupRecord> = Vec::new();
                members.push(record);
                assert(members.deep_view() =~= seq![record@]);
                let group = WordGroup {
                    headword,
                    pronunciation: duplicate_pronunciation(pronunciation),
                    records: members,
                };
                groups.push(group);
                assert(groups.deep_view() =~= before.push(group@));
            },
        }
        i += 1;
    }
    assert(source.take(i as int) =~= source);
    groups
}

/// The positions in `records` of the records that bear `headword`, in
/// rising order.
pub open spec fn positions_under(records: Seq<RecordModel>, headword: Seq<char>) -> Seq<int>
    decreases records.len(),
{
    if records.len() == 0 {
        Seq::empty()
    } else {
        let before = positions_under(records.drop_last(), headword);
        if records.last().headword == headword {
            before.push(records.len() - 1)
        } else {
            before
        }
    }
}

/// The records under a headword are the records at the positions under it:
/// the positions rise, each holds a record of that headword, and no record of
/// that headword is left out.
pub proof fn lemma_positions_under(records: Seq<RecordModel>, headword: Seq<char>)
    ensures
        positions_under(records, headword).len() == records_under(records, headword).len(),
        forall|k: int|
            0 <= k < positions_under(records, headword).len() ==> {
                let at = #[trigger] positions_under(records, headword)[k];
                &&& 0 <= at < records.len()
                &&& records[at].headword == headword
                &&& records[at] == records_under(records, headword)[k]
            },
        forall|k: int, l: int|
            0 <= k < l < positions_under(records, headword).len() ==> positions_under(
                records,
                headword,
            )[k] < positions_under(records, headword)[l],
        forall|i: int|
            0 <= i < records.len() && (#[trigger] records[i]).headword == headword
                ==> positions_under(records, headword).contains(i),
    decreases records.len(),
{
    if records.len() > 0 {
        let front = records.drop_last();
        lemma_positions_under(front, headword);
        let before = positions_under(front, headword);
        let all = positions_under(records, headword);
        assert forall|i: int|
            0 <= i < records.len() && (#[trigger] records[i]).headword
                == headword implies all.contains(i) by {
            if i < front.len() {
                assert(front[i].headword == headword);
                assert(before.contains(i));
                let k = choose|k: int| 0 <= k < before.len() && before[k] == i;
                assert(all[k] == i);
            } else {
                assert(all[all.len() - 1] == i);
            }
        }
    }
}

/// The same records give the same groups, however often they are grouped.
pub proof fn law_grouping_repeats(
    records: Seq<RecordModel>,
    again: Seq<RecordModel>,
    pronunciation: Option<Seq<char>>,
)
    requires
        again == records,
    ensures
        grouped(again, pronunciation) == grouped(records, pronunciation),
{
}

/// Every record stands in the group of its headword and in no other group.
pub proof fn law_one_group_for_each_record(
    records: Seq<RecordModel>,
    pronunciation: Option<Seq<char>>,
    i: int,
)
    requires
        0 <= i < records.len(),
    ensures
        exists|g: int|
            {
                &&& 0 <= g < grouped(records, pronunciation).len()
                &&& (#[trigger] grouped(records, pronunciation)[g]).headword == records[i].headword
                &&& grouped(records, pronunciation)[g].records.contains(records[i])
                &&& forall|k: int|
                    0 <= k < grouped(records, pronunciation).len() && k != g ==> !(
                    #[trigger] grouped(records, pronunciation)[k]).records.contains(records[i])
            },
{
    let groups = grouped(records, pronunciation);
    let heads = headwords_of(records);
    let headword = records[i].headword;
    lemma_headwords(records);
    assert(heads.contains(headword));
    let g = choose|g: int| 0 <= g < heads.len() && heads[g] == headword;
    lemma_positions_under(records, headword);
    assert(positions_under(records, headword).contains(i));
    let at = choose|k: int|
        0 <= k < positions_under(records, headword).len() && positions_under(records, headword)[k]
            == i;
    assert(groups[g].records[at] == records[i]);
    assert forall|k: int| 0 <= k < groups.len() && k != g implies !(
    #[trigger] groups[k]).records.contains(records[i]) by {
        if groups[k].records.contains(records[i]) {
            let m = choose|m: int|
                0 <= m < groups[k].records.len() && groups[k].records[m] == records[i];
            lemma_positions_under(records, heads[k]);
            let from = positions_under(records, heads[k])[m];
            assert(records[from].headword == heads[k]);
            assert(heads[k] == headword);
            if k < g {
                assert(heads[k] != heads[g]);
            } else {
                assert(heads[g] != heads[k]);
            }
        }
    }
}

/// Two records that bear the same headword stand in the same group, wherever
/// in the response they stand.
pub proof fn law_same_headword_same_group(
    records: Seq<RecordModel>,
    pronunciation: Option<Seq<char>>,
    i: int,
    j: int,
)
    requires
        0 <= i < records.len(),
        0 <= j < records.len(),
        records[i].headword == records[j].headword,
    ensures
        exists|g: int|
            {
                &&& 0 <= g < grouped(records, pronunciation).len()
                &&& (#[trigger] grouped(records, pronunciation)[g]).records.contains(records[i])
                &&& grouped(records, pronunciation)[g].records.contains(records[j])
            },
{
    let groups = grouped(records, pronunciation);
    law_one_group_for_each_record(records, pronunciation, i);
    law_one_group_for_each_record(records, pronunciation, j);
    let g = choose|g: int|
        {
            &&& 0 <= g < groups.len()
            &&& (#[trigger] groups[g]).headword == records[i].headword
            &&& groups[g].records.contains(records[i])
            &&& forall|k: int|
                0 <= k < groups.len() && k != g ==> !(#[trigger] groups[k]).records.contains(
                    records[i],
                )
        };
    let h = choose|h: int|
        {
            &&& 0 <= h < groups.len()
            &&& (#[trigger] groups[h]).headword == records[j].headword
            &&& groups[h].records.contains(records[j])
            &&& forall|k: int|
                0 <= k < groups.len() && k != h ==> !(#[trigger] groups[k]).records.contains(
                    records[j],
                )
        };
    lemma_headwords(records);
    if g < h {
        assert(headwords_of(records)[g] != headwords_of(records)[h]);
    }
    if h < g {
        assert(headwords_of(records)[h] != headwords_of(records)[g]);
    }
    assert(g == h);
}

/// `picked` holds the records of `source` at `positions`, and the positions
/// rise: `picked` is drawn from `source` without a change of order.
pub open spec fn drawn_in_order(
    source: Seq<RecordModel>,
    picked: Seq<RecordModel>,
    positions: Seq<int>,
) -> bool {
    &&& positions.len() == picked.len()
    &&& forall|k: int|
        0 <= k < positions.len() ==> 0 <= #[trigger] positions[k] < source.len()
            && source[positions[k]] == picked[k]
    &&& forall|k: int, l: int| 0 <= k < l < positions.len() ==> positions[k] < positions[l]
}

/// Within a group the records keep the order of the response: they are the
/// records at the positions at which the group's headword stands there, and
/// those positions rise.
pub proof fn law_group_keeps_order(
    records: Seq<RecordModel>,
    pronunciation: Option<Seq<char>>,
    g: int,
)
    requires
        0 <= g < grouped(records, pronunciation).len(),
    ensures
        drawn_in_order(
            records,
            grouped(records, pronunciation)[g].records,
            positions_under(records, grouped(records, pronunciation)[g].headword),
        ),
{
    lemma_positions_under(records, headwords_of(records)[g]);
}

/// No two groups bear the same headword, and no group is empty.
pub proof fn law_groups_are_distinct(records: Seq<RecordModel>, pronunciation: Option<Seq<char>>)
    ensures
        forall|a: int, b: int|
            0 <= a < b < grouped(records, pronunciation).len() ==> (#[trigger] grouped(
                records,
                pronunciation,
            )[a]).headword != (#[trigger] grouped(records, pronunciation)[b]).headword,
        forall|g: int|
            0 <= g < grouped(records, pronunciation).len() ==> (#[trigger] grouped(
                records,
                pronunciation,
            )[g]).records.len() > 0,
{
    let groups = grouped(records, pronunciation);
    let heads = headwords_of(records);
    lemma_headwords(records);
    assert forall|a: int, b: int| 0 <= a < b < groups.len() implies (#[trigger] groups[a]).headword
        != (#[trigger] groups[b]).headword by {
        assert(heads[a] != heads[b]);
    }
    assert forall|g: int| 0 <= g < groups.len() implies (#[trigger] groups[g]).records.len()
        > 0 by {
        let i = choose|i: int| 0 <= i < records.len() && records[i].headword == heads[g];
        lemma_positions_under(records, heads[g]);
        assert(positions_under(records, heads[g]).contains(i));
    }
}

/// The pronunciation decides nothing about the grouping: with another
/// pronunciation, or with none, the groups have the same headwords and the
/// same records.
pub proof fn law_pronunciation_only_labels(
    records: Seq<RecordModel>,
    one: Option<Seq<char>>,
    other: Option<Seq<char>>,
)
    ensures
        grouped(records, one).len() == grouped(records, other).len(),
        forall|g: int|
            0 <= g < grouped(records, one).len() ==> {
                &&& (#[trigger] grouped(records, one)[g]).headword == grouped(
                    records,
                    other,
                )[g].headword
                &&& grouped(records, one)[g].records == grouped(records, other)[g].records
                &&& grouped(records, one)[g].pronunciation == one
            },
{
}

/// The records of the groups, group after group.
pub open spec fn flattened(groups: Seq<GroupModel>) -> Seq<RecordModel>
    decreases groups.len(),
{
    if groups.len() == 0 {
        Seq::empty()
    } else {
        flattened(groups.drop_last()) + groups.last().records
    }
}

/// The records under a headword in two runs of records, one after the other,
/// are those of the first run and then those of the second.
proof fn lemma_records_under_append(
    front: Seq<RecordModel>,
    back: Seq<RecordModel>,
    headword: Seq<char>,
)
    ensures
        records_under(front + back, headword) == records_under(front, headword) + records_under(
            back,
            headword,
        ),
    decreases back.len(),
{
    if back.len() == 0 {
        assert(front + back =~= front);
        assert(records_under(front, headword) + records_under(back, headword) =~= records_under(
            front,
            headword,
        ));
    } else {
        lemma_records_under_append(front, back.drop_last(), headword);
        assert((front + back).drop_last() =~= front + back.drop_last());
        assert((front + back).last() == back.last());
        assert(records_under(front + back, headword) =~= records_under(front, headword)
            + records_under(back, headword));
    }
}

/// A run of records that all bear one headword stands whole under that
/// headword, and adds that headword, once, to the headwords that come before
/// it.
proof fn lemma_block(front: Seq<RecordModel>, block: Seq<RecordModel>, headword: Seq<char>)
    requires
        block.len() > 0,
        forall|i: int| 0 <= i < block.len() ==> (#[trigger] block[i]).headword == headword,
        !headwords_of(front).contains(headword),
    ensures
        records_under(block, headword) == block,
        forall|other: Seq<char>| other != headword ==> records_under(block, other).len() == 0,
        headwords_of(front + block) == headwords_of(front).push(headword),
    decreases block.len(),
{
    let shorter = block.drop_last();
    assert((front + block).drop_last() =~= front + shorter);
    assert((front + block).last() == block.last());
    assert(block.last().headword == headword);
    if shorter.len() == 0 {
        assert(front + shorter =~= front);
        assert(records_under(shorter, headword).len() == 0);
        assert(records_under(block, headword) =~= block);
        assert forall|other: Seq<char>| other != headword implies records_under(block, other).len()
            == 0 by {
            assert(records_under(shorter, other).len() == 0);
        }
    } else {
        assert forall|i: int| 0 <= i < shorter.len() implies (#[trigger] shorter[i]).headword
            == headword by {
            assert(shorter[i] == block[i]);
        }
        lemma_block(front, shorter, headword);
        assert(records_under(block, headword) =~= block);
        assert forall|other: Seq<char>| other != headword implies records_under(block, other).len()
            == 0 by {
            assert(records_under(shorter, other).len() == 0);
        }
        let before = headwords_of(front + shorter);
        assert(before[before.len() - 1] == headword);
        assert(before.contains(headword));
    }
}

/// The first `upto` groups, flattened: their headwords are the first `upto`
/// headwords, and under each of these stand the records of its group.
proof fn lemma_flattened_groups(
    records: Seq<RecordModel>,
    pronunciation: Option<Seq<char>>,
    upto: int,
)
    requires
        0 <= upto <= grouped(records, pronunciation).len(),
    ensures
        headwords_of(flattened(grouped(records, pronunciation).take(upto))) == headwords_of(
            records,
        ).take(upto),
        forall|g: int|
            0 <= g < upto ==> records_under(
                flattened(grouped(records, pronunciation).take(upto)),
                #[trigger] headwords_of(records)[g],
            ) == records_under(records, headwords_of(records)[g]),
    decreases upto,
{
    let groups = grouped(records, pronunciation);
    let heads = headwords_of(records);
    if upto == 0 {
        assert(groups.take(0) =~= Seq::<GroupModel>::empty());
        assert(heads.take(0) =~= Seq::<Seq<char>>::empty());
    } else {
        let k = upto - 1;
        lemma_flattened_groups(records, pronunciation, k);
        lemma_headwords(records);
        law_groups_are_distinct(records, pronunciation);
        let front = flattened(groups.take(k));
        let block = groups[k].records;
        let headword = heads[k];
        assert(groups.take(upto).drop_last() =~= groups.take(k));
        assert(groups.take(upto).last() == groups[k]);
        assert(flattened(groups.take(upto)) == front + block);
        lemma_positions_under(records, headword);
        assert forall|i: int| 0 <= i < block.len() implies (#[trigger] block[i]).headword
            == headword by {
            let at = positions_under(records, headword)[i];
            assert(records[at] == block[i]);
        }
        assert(!heads.take(k).contains(headword)) by {
            if heads.take(k).contains(headword) {
                let g = choose|g: int| 0 <= g < k && heads.take(k)[g] == headword;
                assert(heads[g] != heads[k]);
            }
        }
        lemma_block(front, block, headword);
        assert(heads.take(upto) =~= heads.take(k).push(headword));
        assert forall|g: int| 0 <= g < upto implies records_under(
            flattened(groups.take(upto)),
            #[trigger] heads[g],
        ) == records_under(records, heads[g]) by {
            lemma_records_under_append(front, block, heads[g]);
            if g < k {
                assert(heads[g] != heads[k]);
                assert(records_under(front, heads[g]) + records_under(block, heads[g])
                    =~= records_under(front, heads[g]));
            } else {
                lemma_records_under_absent(front, headword);
                assert(records_under(front, headword) + block =~= block);
            }
        }
    }
}

/// Grouping is idempotent: the records of the groups, taken group after
/// group and grouped again, give the same groups.
pub proof fn law_grouping_is_idempotent(records: Seq<RecordModel>, pronunciation: Option<Seq<char>>)
    ensures
        grouped(flattened(grouped(records, pronunciation)), pronunciation) == grouped(
            records,
            pronunciation,
        ),
{
    let groups = grouped(records, pronunciation);
    let heads = headwords_of(records);
    lemma_flattened_groups(records, pronunciation, groups.len() as int);
    assert(groups.take(groups.len() as int) =~= groups);
    assert(heads.take(heads.len() as int) =~= heads);
    assert(grouped(flattened(groups), pronunciation) =~= groups);
}

} // verus!
