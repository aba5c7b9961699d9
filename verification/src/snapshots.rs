//! The names of turn snapshot files: a prefix, a turn index and `.json`.

use vstd::prelude::*;

use crate::text::{
    decimal, has_prefix, has_suffix, numerals_read_as_their_numbers, parse_unsigned, strip_prefix,
    strip_suffix, unsigned_value,
};

verus! {

/// What stands before `.json` in a file's name; a name that is nothing but that
/// ending has no stem.
pub open spec fn json_stem(file_name: Seq<char>) -> Option<Seq<char>> {
    if has_suffix(file_name, ".json"@) && file_name.len() > ".json"@.len() {
        Some(file_name.take(file_name.len() - ".json"@.len()))
    } else {
        None
    }
}

/// The turn index in a stem with this prefix.
pub open spec fn stem_index(stem: Seq<char>, prefix: Seq<char>) -> Option<nat> {
    if has_prefix(stem, prefix) {
        unsigned_value(stem.skip(prefix.len() as int))
    } else {
        None
    }
}

/// The turn index in a file's name with this prefix.
pub open spec fn snapshot_index(file_name: Seq<char>, prefix: Seq<char>) -> Option<nat> {
    match json_stem(file_name) {
        Some(stem) => stem_index(stem, prefix),
        None => None,
    }
}

/// Reads the turn index in a stem.
fn read_stem_index(stem: &str, prefix: &str) -> (r: Option<usize>)
    ensures
        r is Some == stem_index(stem@, prefix@) is Some,
        r matches Some(i) ==> stem_index(stem@, prefix@) == Some(i as nat),
{
    match strip_prefix(stem, prefix) {
        Some(rest) => parse_unsigned(rest.as_str()),
        None => None,
    }
}

/// The stem of a file's name.
fn read_json_stem(file_name: &str) -> (r: Option<String>)
    ensures
        r is Some == json_stem(file_name@) is Some,
        r matches Some(stem) ==> json_stem(file_name@) == Some(stem@),
{
    match strip_suffix(file_name, ".json") {
        Some(stem) => if stem.as_str().is_empty() {
            None
        } else {
            Some(stem)
        },
        None => None,
    }
}

/// The turn index in the name of a context snapshot.
pub fn context_snapshot_index(file_name: &str) -> (r: Option<usize>)
    ensures
        r is Some == snapshot_index(file_name@, "context-"@) is Some,
        r matches Some(i) ==> snapshot_index(file_name@, "context-"@) == Some(i as nat),
{
    match read_json_stem(file_name) {
        Some(stem) => read_stem_index(stem.as_str(), "context-"),
        None => None,
    }
}

/// The turn index in the name of a skill and agent snapshot.
pub fn skill_agent_snapshot_index(file_name: &str) -> (r: Option<usize>)
    ensures
        r is Some == snapshot_index(file_name@, "skill-agent-"@) is Some,
        r matches Some(i) ==> snapshot_index(file_name@, "skill-agent-"@) == Some(i as nat),
{
    match read_json_stem(file_name) {
        Some(stem) => read_stem_index(stem.as_str(), "skill-agent-"),
        None => None,
    }
}

/// The turn index in the name of a snapshot of either kind.
pub open spec fn any_snapshot_index(file_name: Seq<char>) -> Option<nat> {
    match json_stem(file_name) {
        Some(stem) => if has_prefix(stem, "context-"@) {
            stem_index(stem, "context-"@)
        } else {
            stem_index(stem, "skill-agent-"@)
        },
        None => None,
    }
}

/// Whether a skill and agent snapshot goes when those from a turn on are
/// deleted.
pub fn is_skill_agent_snapshot_deleted_from(file_name: &str, turn_index: usize) -> (r: bool)
    ensures
        r == (snapshot_index(file_name@, "skill-agent-"@) matches Some(i) && i >= turn_index),
{
    match skill_agent_snapshot_index(file_name) {
        Some(index) => index >= turn_index,
        None => false,
    }
}

/// Whether a snapshot of either kind goes when those from a turn on are deleted.
pub fn is_context_snapshot_deleted_from(file_name: &str, turn_index: usize) -> (r: bool)
    ensures
        r == (any_snapshot_index(file_name@) matches Some(i) && i >= turn_index),
{
    let stem = match read_json_stem(file_name) {
        Some(stem) => stem,
        None => {
            return false;
        },
    };
    let index = match strip_prefix(stem.as_str(), "context-") {
        Some(rest) => parse_unsigned(rest.as_str()),
        None => read_stem_index(stem.as_str(), "skill-agent-"),
    };
    match index {
        Some(index) => index >= turn_index,
        None => false,
    }
}

/// Whether a file name is that of a context snapshot before a turn.
pub open spec fn is_snapshot_before(file_name: Seq<char>, exclusive: nat, index: nat) -> bool {
    snapshot_index(file_name, "context-"@) == Some(index) && index < exclusive
}

/// What a look through the snapshot directory found: the latest context
/// snapshot before the asked turn, and the number of context snapshots.
#[derive(Debug, Clone, Copy, PartialEq, Eq, Structural)]
pub struct LatestContextSnapshot {
    pub latest: Option<usize>,
    pub snapshot_file_count: usize,
}

/// The number of context snapshots among the first `n` names.
pub open spec fn snapshot_count(file_names: Seq<String>, n: nat) -> nat
    decreases n,
{
    if n == 0 || n > file_names.len() {
        0
    } else {
        snapshot_count(file_names, (n - 1) as nat) + (if snapshot_index(
            file_names[n - 1]@,
            "context-"@,
        ) is Some {
            1nat
        } else {
            0nat
        })
    }
}

/// Finds the latest context snapshot before a turn.
pub fn latest_context_snapshot_before(
    file_names: &Vec<String>,
    exclusive_turn_index: usize,
) -> (r: LatestContextSnapshot)
    ensures
        r.snapshot_file_count == snapshot_count(file_names@, file_names@.len()),
        match r.latest {
            Some(index) => {
                &&& exists|k: int|
                    0 <= k < file_names@.len() && is_snapshot_before(
                        (#[trigger] file_names@[k])@,
                        exclusive_turn_index as nat,
                        index as nat,
                    )
                &&& forall|k: int, other: nat|
                    0 <= k < file_names@.len() && #[trigger] is_snapshot_before(
                        file_names@[k]@,
                        exclusive_turn_index as nat,
                        other,
                    ) ==> other <= index
            },
            None => forall|k: int, other: nat|
                0 <= k < file_names@.len() ==> !#[trigger] is_snapshot_before(
                    file_names@[k]@,
                    exclusive_turn_index as nat,
                    other,
                ),
        },
{
    let mut latest: Option<usize> = None;
    let mut count: usize = 0;
    let mut i: usize = 0;
    while i < file_names.len()
        invariant
            i <= file_names@.len(),
            count <= i,
            count == snapshot_count(file_names@, i as nat),
            match latest {
                Some(index) => {
                    &&& exists|k: int|
                        0 <= k < i && is_snapshot_before(
                            (#[trigger] file_names@[k])@,
                            exclusive_turn_index as nat,
                            index as nat,
                        )
                    &&& forall|k: int, other: nat|
                        0 <= k < i && #[trigger] is_snapshot_before(
                            file_names@[k]@,
                            exclusive_turn_index as nat,
                            other,
                        ) ==> other <= index
                },
                None => forall|k: int, other: nat|
                    0 <= k < i ==> !#[trigger] is_snapshot_before(
                        file_names@[k]@,
                        exclusive_turn_index as nat,
                        other,
                    ),
            },
        decreases file_names@.len() - i,
    {
        match context_snapshot_index(file_names[i].as_str()) {
            Some(index) => {
                count += 1;
                if index < exclusive_turn_index {
                    assert(is_snapshot_before(
                        file_names@[i as int]@,
                        exclusive_turn_index as nat,
                        index as nat,
                    ));
                    match latest {
                        Some(value) => {
                            if index > value {
                                latest = Some(index);
                            }
                        },
                        None => {
                            latest = Some(index);
                        },
                    }
                }
            },
            None => {},
        }
        i += 1;
    }
    LatestContextSnapshot { latest, snapshot_file_count: count }
}

/// The name of a snapshot gives its turn back, and a name of one kind is none of
/// the other; a look at both kinds finds either.
pub proof fn snapshot_names_give_back_their_turn(n: nat)
    requires
        n <= usize::MAX,
    ensures
        snapshot_index("context-"@ + decimal(n) + ".json"@, "context-"@) == Some(n),
        snapshot_index("skill-agent-"@ + decimal(n) + ".json"@, "skill-agent-"@) == Some(n),
        snapshot_index("context-"@ + decimal(n) + ".json"@, "skill-agent-"@) is None,
        snapshot_index("skill-agent-"@ + decimal(n) + ".json"@, "context-"@) is None,
        any_snapshot_index("context-"@ + decimal(n) + ".json"@) == Some(n),
        any_snapshot_index("skill-agent-"@ + decimal(n) + ".json"@) == Some(n),
{
    reveal_strlit("context-");
    reveal_strlit("skill-agent-");
    reveal_strlit(".json");
    numerals_read_as_their_numbers(n, Seq::empty());
    let context = "context-"@ + decimal(n);
    let skill = "skill-agent-"@ + decimal(n);
    lemma_json_stem(context);
    lemma_json_stem(skill);
    assert(context.take(8) =~= "context-"@);
    assert(context.skip(8) =~= decimal(n));
    assert(skill.take(12) =~= "skill-agent-"@);
    assert(skill.skip(12) =~= decimal(n));
    assert(!has_prefix(context, "skill-agent-"@)) by {
        if has_prefix(context, "skill-agent-"@) {
            assert(context.take(12)[0] == 'c');
            assert("skill-agent-"@[0] == 's');
        }
    }
    assert(!has_prefix(skill, "context-"@)) by {
        if has_prefix(skill, "context-"@) {
            assert(skill.take(8)[0] == 's');
            assert("context-"@[0] == 'c');
        }
    }
}

proof fn lemma_json_stem(stem: Seq<char>)
    requires
        stem.len() > 0,
    ensures
        json_stem(stem + ".json"@) == Some(stem),
{
    reveal_strlit(".json");
    let name = stem + ".json"@;
    assert(name.skip(name.len() - 5) =~= ".json"@);
    assert(name.take(name.len() - 5) =~= stem);
}

/// Only a name of the prefix, a number and `.json` is that of a snapshot.
pub proof fn only_names_of_the_form_are_snapshots(file_name: Seq<char>, prefix: Seq<char>)
    requires
        snapshot_index(file_name, prefix) is Some,
    ensures
        exists|number: Seq<char>|
            #[trigger] unsigned_value(number) == snapshot_index(file_name, prefix) && file_name
                == prefix + number + ".json"@,
{
    let stem = json_stem(file_name)->0;
    let number = stem.skip(prefix.len() as int);
    assert(stem =~= prefix + number);
    assert(file_name =~= stem + ".json"@);
    assert(unsigned_value(number) == snapshot_index(file_name, prefix));
    assert(file_name =~= prefix + number + ".json"@);
}

/// Context snapshots are counted one by one.
pub proof fn context_snapshots_are_counted_one_by_one(names: Seq<String>, n: nat)
    requires
        n < names.len(),
    ensures
        snapshot_count(names, n + 1) == snapshot_count(names, n) + (if snapshot_index(
            names[n as int]@,
            "context-"@,
        ) is Some {
            1nat
        } else {
            0nat
        }),
        snapshot_count(names, 0) == 0,
{
}

/// A context snapshot lies before a turn exactly when its own turn is an earlier
/// one.
pub proof fn a_snapshot_lies_before_later_turns(n: nat, exclusive: nat, index: nat)
    requires
        n <= usize::MAX,
    ensures
        is_snapshot_before("context-"@ + decimal(n) + ".json"@, exclusive, index) <==> index == n
            && n < exclusive,
{
    snapshot_names_give_back_their_turn(n);
}

} // verus!
