//! Note filenames: the candidate names a title can finalize under, and the
//! collision-free resolution of the final name against the directory's
//! current entries.

use crate::numeral::{dec_rep, lemma_dec_rep_digits, lemma_dec_rep_injective, u64_to_string};
use vstd::prelude::*;
use vstd::seq_lib::*;
use vstd::set_lib::lemma_len_subset;

verus! {

/// The fixed note extension, as characters: `.md`.
pub open spec fn ext_chars() -> Seq<char> {
    seq!['.', 'm', 'd']
}

/// The opening of a numeric collision suffix: ` (`.
pub open spec fn suffix_open_chars() -> Seq<char> {
    seq![' ', '(']
}

/// The close of a numeric collision suffix and the extension: `).md`.
pub open spec fn suffix_close_chars() -> Seq<char> {
    seq![')', '.', 'm', 'd']
}

/// The `k`-th filename tried for a title: `<title>.md` first, then
/// `<title> (1).md`, `<title> (2).md`, and so on.
pub open spec fn candidate_name(title: Seq<char>, k: nat) -> Seq<char> {
    if k == 0 {
        title + ext_chars()
    } else {
        title + suffix_open_chars() + dec_rep(k) + suffix_close_chars()
    }
}

/// The filenames already present in the notes directory, as character
/// sequences.
pub open spec fn taken_names(existing: Seq<String>) -> Set<Seq<char>> {
    existing.map_values(|s: String| s@).to_set()
}

/// For one title, distinct suffix numbers give distinct candidate names.
pub proof fn lemma_candidate_injective(title: Seq<char>, k1: nat, k2: nat)
    requires
        candidate_name(title, k1) == candidate_name(title, k2),
    ensures
        k1 == k2,
{
    let t = title.len() as int;
    if k1 == 0 && k2 != 0 {
        lemma_dec_rep_digits(k2);
        assert(candidate_name(title, k1).len() == t + 3);
        assert(candidate_name(title, k2).len() >= t + 7);
    } else if k1 != 0 && k2 == 0 {
        lemma_dec_rep_digits(k1);
        assert(candidate_name(title, k2).len() == t + 3);
        assert(candidate_name(title, k1).len() >= t + 7);
    } else if k1 != 0 && k2 != 0 {
        let s = candidate_name(title, k1);
        let len = s.len() as int;
        assert(dec_rep(k1) =~= s.subrange(t + 2, len - 4));
        assert(dec_rep(k2) =~= candidate_name(title, k2).subrange(t + 2, len - 4));
        lemma_dec_rep_injective(k1, k2);
    }
}

/// Builds the `k`-th candidate filename for a title.
pub fn make_candidate(title: &str, k: u64) -> (r: String)
    ensures
        r@ == candidate_name(title@, k as nat),
{
    proof {
        reveal_strlit(".md");
        reveal_strlit(" (");
        reveal_strlit(").md");
    }
    let mut r = String::from_str(title);
    if k == 0 {
        r.append(".md");
        assert(r@ =~= candidate_name(title@, 0));
    } else {
        r.append(" (");
        let num = u64_to_string(k);
        r.append(num.as_str());
        r.append(").md");
        assert(r@ =~= candidate_name(title@, k as nat));
    }
    r
}

/// Whether a filename is already present among the directory's entries.
pub fn name_taken(existing: &Vec<String>, name: &String) -> (r: bool)
    ensures
        r == taken_names(existing@).contains(name@),
{
    let ghost mapped = existing@.map_values(|s: String| s@);
    let mut i: usize = 0;
    while i < existing.len()
        invariant
            i <= existing@.len(),
            mapped == existing@.map_values(|s: String| s@),
            forall|j: int| 0 <= j < i ==> existing@[j]@ != name@,
        decreases existing@.len() - i,
    {
        if existing[i].eq(name) {
            proof {
                assert(mapped[i as int] == name@);
                assert(mapped.contains(name@));
            }
            return true;
        }
        i += 1;
    }
    proof {
        assert forall|j: int| 0 <= j < mapped.len() implies mapped[j] != name@ by {
            assert(mapped[j] == existing@[j]@);
        }
        assert(!mapped.contains(name@));
    }
    false
}

/// The least suffix number whose candidate name is free: every smaller
/// suffix collides with an existing entry, this one does not.
pub open spec fn is_first_free(existing: Seq<String>, title: Seq<char>, k: nat) -> bool {
    &&& !taken_names(existing).contains(candidate_name(title, k))
    &&& forall|j: nat| j < k ==> taken_names(existing).contains(#[trigger] candidate_name(title, j))
}

/// Every candidate name ends in the fixed note extension: whatever suffix
/// the collision search settles on, the finalized file is a note.
pub proof fn lemma_candidate_extension(title: Seq<char>, k: nat)
    ensures
        candidate_name(title, k).len() >= 3,
        candidate_name(title, k).subrange(
            candidate_name(title, k).len() - 3,
            candidate_name(title, k).len() as int,
        ) == ext_chars(),
{
    let c = candidate_name(title, k);
    if k != 0 {
        lemma_dec_rep_digits(k);
    }
    assert(c.subrange(c.len() - 3, c.len() as int) =~= ext_chars());
}

/// At most one suffix number is the first free one: the resolved filename
/// is uniquely determined by the directory's entries and the title.
pub proof fn lemma_first_free_unique(existing: Seq<String>, title: Seq<char>, k1: nat, k2: nat)
    requires
        is_first_free(existing, title, k1),
        is_first_free(existing, title, k2),
    ensures
        k1 == k2,
{
}

/// A title not yet present keeps its plain name: when `<title>.md` is free,
/// the first free candidate is `<title>.md` itself.
pub proof fn lemma_resolve_fresh(existing: Seq<String>, title: Seq<char>, k: nat)
    requires
        is_first_free(existing, title, k),
        !taken_names(existing).contains(candidate_name(title, 0)),
    ensures
        k == 0,
{
}

/// A title already present never costs the old note its name: when
/// `<title>.md` is taken, the resolved name carries a numeric suffix and
/// differs from every name already in the directory — in particular from
/// `<title>.md`.
pub proof fn lemma_resolve_collision(existing: Seq<String>, title: Seq<char>, k: nat)
    requires
        is_first_free(existing, title, k),
        taken_names(existing).contains(candidate_name(title, 0)),
    ensures
        k >= 1,
        candidate_name(title, k) != candidate_name(title, 0),
        !taken_names(existing).contains(candidate_name(title, k)),
{
    if candidate_name(title, k) == candidate_name(title, 0) {
        lemma_candidate_injective(title, k, 0);
    }
}

/// Resolves the final filename for a title against the directory's current
/// entries: `<title>.md` if free, otherwise `<title> (k).md` for the least
/// free `k`. Never returns a name that is already taken, and never skips a
/// free name.
pub fn resolve_filename(existing: &Vec<String>, title: &str) -> (r: String)
    ensures
        !taken_names(existing@).contains(r@),
        exists|k: nat| is_first_free(existing@, title@, k) && r@ == candidate_name(title@, k),
{
    let ghost t = taken_names(existing@);
    let ghost mapped = existing@.map_values(|s: String| s@);
    proof {
        broadcast use vstd::seq_lib::seq_to_set_is_finite;

        mapped.lemma_cardinality_of_set();
        assert(t.len() <= existing@.len());
        assert(t.finite());
    }
    let n = existing.len();
    let mut k: usize = 0;
    let ghost mut found: Set<Seq<char>> = Set::empty();
    loop
        invariant
            k <= n,
            n == existing@.len(),
            t == taken_names(existing@),
            t.finite(),
            t.len() <= n,
            found.finite(),
            found.len() == k,
            found.subset_of(t),
            forall|s: Seq<char>| found.contains(s) <==> exists|j: nat|
                j < k && s == candidate_name(title@, j),
            forall|j: nat| j < k ==> t.contains(#[trigger] candidate_name(title@, j)),
        decreases n - k,
    {
        let cand = make_candidate(title, k as u64);
        if !name_taken(existing, &cand) {
            proof {
                assert(is_first_free(existing@, title@, k as nat));
            }
            return cand;
        }
        proof {
            if found.contains(cand@) {
                let j = choose|j: nat| j < k && cand@ == candidate_name(title@, j);
                lemma_candidate_injective(title@, j, k as nat);
                assert(false);
            }
            found = found.insert(cand@);
            lemma_len_subset(found, t);
            assert(found.len() == k + 1);
            assert(k + 1 <= n);
        }
        k = k + 1;
    }
}

} // verus!
