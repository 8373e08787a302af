//! Tor bridge configuration: the bridge lines handed to the Tor client.

use vstd::prelude::*;
use vstd::string::StringSliceAdditionalSpecFns;
use vstd::utf8::encode_utf8;
use crate::common::text::{spec_trim, trim};
use crate::client::onion::config::TorSettings;
use crate::crypto::primitives::shuffle;

verus! {

/// At most this many bridges are configured.
pub const BRIDGE_DEFAULT_SAMPLE_SIZE: usize = 8;

/// Longest bridge line accepted, in bytes.
pub const MAX_BRIDGE_LINE_LEN: usize = 1024;

/// The text of each string.
pub open spec fn strings_view(v: Seq<String>) -> Seq<Seq<char>> {
    v.map_values(|s: String| s@)
}

/// The bridge lines kept from `lines`, in order: each trimmed, dropped when
/// empty, longer than 1024 bytes or already kept.
pub open spec fn spec_dedup_lines(lines: Seq<Seq<char>>) -> Seq<Seq<char>>
    decreases lines.len(),
{
    if lines.len() == 0 {
        Seq::empty()
    } else {
        let acc = spec_dedup_lines(lines.drop_last());
        let t = spec_trim(lines.last());
        if t.len() == 0 || encode_utf8(t).len() > MAX_BRIDGE_LINE_LEN || acc.contains(t) {
            acc
        } else {
            acc.push(t)
        }
    }
}

/// The kept bridge lines are distinct, non-empty, at most 1024 bytes long,
/// and each is the trimmed form of an input line.
pub proof fn lemma_dedup_lines(lines: Seq<Seq<char>>)
    ensures
        spec_dedup_lines(lines).no_duplicates(),
        forall|i: int|
            0 <= i < spec_dedup_lines(lines).len() ==> (#[trigger] spec_dedup_lines(lines)[i]).len() > 0
                && encode_utf8(spec_dedup_lines(lines)[i]).len() <= MAX_BRIDGE_LINE_LEN
                && exists|j: int| 0 <= j < lines.len() && spec_dedup_lines(lines)[i] == spec_trim(lines[j]),
    decreases lines.len(),
{
    if lines.len() > 0 {
        let prev = lines.drop_last();
        lemma_dedup_lines(prev);
        let acc = spec_dedup_lines(prev);
        let out = spec_dedup_lines(lines);
        assert forall|i: int| 0 <= i < out.len() implies (#[trigger] out[i]).len() > 0
            && encode_utf8(out[i]).len() <= MAX_BRIDGE_LINE_LEN
            && exists|j: int| 0 <= j < lines.len() && out[i] == spec_trim(lines[j]) by {
            if i < acc.len() {
                assert(out[i] == acc[i]);
                let j = choose|j: int| 0 <= j < prev.len() && acc[i] == spec_trim(prev[j]);
                assert(lines[j] == prev[j]);
            } else {
                assert(out[i] == spec_trim(lines[lines.len() - 1]));
            }
        }
    }
}

/// Nothing valid is lost: every input line whose trimmed form is non-empty
/// and at most 1024 bytes long is among the kept lines. With
/// `lemma_dedup_lines`, the kept lines are exactly the distinct valid
/// trimmed input lines.
pub proof fn lemma_dedup_lines_complete(lines: Seq<Seq<char>>)
    ensures
        forall|j: int|
            0 <= j < lines.len() && spec_trim(#[trigger] lines[j]).len() > 0 && encode_utf8(spec_trim(lines[j])).len()
                <= MAX_BRIDGE_LINE_LEN ==> spec_dedup_lines(lines).contains(spec_trim(lines[j])),
    decreases lines.len(),
{
    if lines.len() > 0 {
        let prev = lines.drop_last();
        lemma_dedup_lines_complete(prev);
        let acc = spec_dedup_lines(prev);
        let out = spec_dedup_lines(lines);
        assert forall|k: int| 0 <= k < acc.len() implies out.contains(#[trigger] acc[k]) by {
            assert(out[k] == acc[k]);
        }
        assert forall|j: int|
            0 <= j < lines.len() && spec_trim(#[trigger] lines[j]).len() > 0 && encode_utf8(spec_trim(lines[j])).len()
                <= MAX_BRIDGE_LINE_LEN implies out.contains(spec_trim(lines[j])) by {
            let t = spec_trim(lines[j]);
            if j < lines.len() - 1 {
                assert(prev[j] == lines[j]);
                assert(acc.contains(t));
                let k = choose|k: int| 0 <= k < acc.len() && acc[k] == t;
                assert(out.contains(acc[k]));
            } else if acc.contains(t) {
                let k = choose|k: int| 0 <= k < acc.len() && acc[k] == t;
                assert(out.contains(acc[k]));
            } else {
                assert(out[acc.len() as int] == t);
            }
        }
    }
}

fn contains_string(v: &Vec<String>, s: &String) -> (r: bool)
    ensures
        r == strings_view(v@).contains(s@),
{
    let mut i: usize = 0;
    while i < v.len()
        invariant
            0 <= i <= v@.len(),
            forall|j: int| 0 <= j < i ==> v@[j]@ != s@,
        decreases v@.len() - i,
    {
        if v[i] == *s {
            assert(strings_view(v@)[i as int] == s@);
            return true;
        }
        i = i + 1;
    }
    proof {
        if strings_view(v@).contains(s@) {
            let j = choose|j: int| 0 <= j < strings_view(v@).len() && strings_view(v@)[j] == s@;
            assert(v@[j]@ == s@);
        }
    }
    false
}

/// Trims the lines and keeps each non-empty one of at most 1024 bytes once,
/// in order of first appearance.
pub fn dedup_and_validate(lines: Vec<String>) -> (out: Vec<String>)
    ensures
        strings_view(out@) == spec_dedup_lines(strings_view(lines@)),
        strings_view(out@).no_duplicates(),
        forall|j: int|
            0 <= j < lines@.len() && spec_trim(#[trigger] lines@[j]@).len() > 0 && encode_utf8(spec_trim(lines@[j]@)).len()
                <= MAX_BRIDGE_LINE_LEN ==> strings_view(out@).contains(spec_trim(lines@[j]@)),
        forall|i: int|
            0 <= i < out@.len() ==> exists|j: int| 0 <= j < lines@.len() && (#[trigger] out@[i])@ == spec_trim(lines@[j]@),
{
    let mut out: Vec<String> = Vec::new();
    let mut i: usize = 0;
    while i < lines.len()
        invariant
            0 <= i <= lines@.len(),
            strings_view(out@) == spec_dedup_lines(strings_view(lines@).take(i as int)),
        decreases lines@.len() - i,
    {
        let line = trim(lines[i].as_str());
        proof {
            assert(strings_view(lines@).take(i + 1).drop_last() =~= strings_view(lines@).take(i as int));
            assert(strings_view(lines@).take(i + 1).last() == lines@[i as int]@);
        }
        let keep = !line.as_str().is_empty() && line.as_str().as_bytes().len() <= MAX_BRIDGE_LINE_LEN
            && !contains_string(&out, &line);
        if keep {
            out.push(line);
            assert(strings_view(out@) =~= spec_dedup_lines(strings_view(lines@).take(i as int)).push(spec_trim(lines@[i as int]@)));
        }
        i = i + 1;
    }
    assert(strings_view(lines@).take(lines@.len() as int) =~= strings_view(lines@));
    proof {
        let lv = strings_view(lines@);
        lemma_dedup_lines_complete(lv);
        lemma_dedup_lines(lv);
        let kept = strings_view(out@);
        assert forall|j: int|
            0 <= j < lines@.len() && spec_trim(#[trigger] lines@[j]@).len() > 0 && encode_utf8(spec_trim(lines@[j]@)).len()
                <= MAX_BRIDGE_LINE_LEN implies kept.contains(spec_trim(lines@[j]@)) by {
            assert(lv[j] == lines@[j]@);
        }
        assert forall|i: int| 0 <= i < out@.len() implies exists|j: int|
            0 <= j < lines@.len() && (#[trigger] out@[i])@ == spec_trim(lines@[j]@) by {
            assert(kept[i] == out@[i]@);
            let j = choose|j: int| 0 <= j < lv.len() && kept[i] == spec_trim(lv[j]);
            assert(lv[j] == lines@[j]@);
        }
    }
    out
}

/// The bridge lines to configure: the runtime settings' lines, validated
/// and deduplicated; when more than 8 remain, a random 8 of them.
pub fn resolve_bridge_lines(settings: &TorSettings) -> (out: Vec<String>)
    ensures
        ({
            let kept = spec_dedup_lines(strings_view(settings.bridge_lines@));
            &&& kept.len() <= BRIDGE_DEFAULT_SAMPLE_SIZE ==> strings_view(out@) == kept
            &&& kept.len() > BRIDGE_DEFAULT_SAMPLE_SIZE ==> out@.len() == BRIDGE_DEFAULT_SAMPLE_SIZE
                && strings_view(out@).no_duplicates()
                && forall|i: int| 0 <= i < out@.len() ==> kept.contains(#[trigger] out@[i]@)
        }),
{
    let mut lines: Vec<String> = Vec::new();
    let mut i: usize = 0;
    while i < settings.bridge_lines.len()
        invariant
            0 <= i <= settings.bridge_lines@.len(),
            lines@.len() == i,
            forall|j: int| 0 <= j < i ==> (#[trigger] lines@[j])@ == settings.bridge_lines@[j]@,
        decreases settings.bridge_lines@.len() - i,
    {
        let line = settings.bridge_lines[i].clone();
        lines.push(line);
        i = i + 1;
    }
    assert(strings_view(lines@) =~= strings_view(settings.bridge_lines@));
    let mut lines = dedup_and_validate(lines);
    assert(strings_view(lines@).len() == lines@.len());
    if lines.len() > BRIDGE_DEFAULT_SAMPLE_SIZE {
        let ghost before = lines@;
        shuffle(&mut lines);
        let ghost shuffled = lines@;
        lines.truncate(BRIDGE_DEFAULT_SAMPLE_SIZE);
        proof {
            broadcast use vstd::seq_lib::group_to_multiset_ensures;

            let kept = spec_dedup_lines(strings_view(settings.bridge_lines@));
            assert(shuffled.to_multiset().len() == shuffled.len());
            assert(before.to_multiset().len() == before.len());
            assert forall|i: int| 0 <= i < lines@.len() implies kept.contains(#[trigger] lines@[i]@) by {
                let x = lines@[i];
                assert(shuffled[i] == x);
                assert(shuffled.contains(x));
                assert(before.to_multiset().count(x) > 0);
                let j = choose|j: int| 0 <= j < before.len() && before[j] == x;
                assert(strings_view(before)[j] == x@);
            }
            lemma_dedup_lines(strings_view(settings.bridge_lines@));
            assert(before.no_duplicates()) by {
                assert forall|a: int, b: int| 0 <= a < before.len() && 0 <= b < before.len() && a != b implies before[a]
                    != before[b] by {
                    assert(strings_view(before)[a] != strings_view(before)[b]);
                }
            }
            before.lemma_multiset_has_no_duplicates();
            assert forall|x: String| shuffled.to_multiset().contains(x) implies shuffled.to_multiset().count(x) == 1 by {}
            shuffled.lemma_multiset_has_no_duplicates_conv();
            assert forall|a: int, b: int|
                0 <= a < lines@.len() && 0 <= b < lines@.len() && a != b implies strings_view(lines@)[a]
                != strings_view(lines@)[b] by {
                let x = lines@[a];
                let y = lines@[b];
                assert(shuffled[a] == x && shuffled[b] == y);
                assert(x != y);
                assert(shuffled.contains(x) && shuffled.contains(y));
                assert(before.to_multiset().count(x) > 0 && before.to_multiset().count(y) > 0);
                let i = choose|i: int| 0 <= i < before.len() && before[i] == x;
                let j = choose|j: int| 0 <= j < before.len() && before[j] == y;
                assert(i != j);
                assert(strings_view(before)[i] != strings_view(before)[j]);
            }
        }
    }
    lines
}

} // verus!
