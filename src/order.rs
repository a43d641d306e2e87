use vstd::prelude::*;
use vstd::set_lib::{lemma_int_range, lemma_len_subset, set_int_range};

use crate::error::{GenError, Unresolved};
use crate::parser::{same_struct, Struct};
use crate::types::{text_eq, CanonicalType};

verus! {

/// The named type a field refers to directly: through arrays, not through
/// pointers (a pointer needs no complete definition of its pointee).
pub open spec fn direct_reference(t: CanonicalType) -> Option<String>
    decreases t,
{
    match t {
        CanonicalType::Named(n) => Some(n),
        CanonicalType::Array(e, _) => direct_reference(*e),
        _ => None,
    }
}

/// Whether the struct refers directly to the name through one of its fields.
pub open spec fn references(s: Struct, n: Seq<char>) -> bool {
    exists|k: int|
        0 <= k < s.fields@.len() && (#[trigger] direct_reference(s.fields@[k].1)) is Some
            && direct_reference(s.fields@[k].1)->0@ == n
}

pub open spec fn is_known(known: Seq<String>, n: Seq<char>) -> bool {
    exists|j: int| 0 <= j < known.len() && (#[trigger] known[j])@ == n
}

/// Whether one of the structs at the given positions bears the name.
pub open spec fn placed_name(structs: Seq<Struct>, placed: Seq<usize>, n: Seq<char>) -> bool {
    exists|j: int| 0 <= j < placed.len() && (#[trigger] structs[placed[j] as int]).name@ == n
}

/// Every name the struct refers to directly is pre-known or borne by a placed struct.
pub open spec fn ready(structs: Seq<Struct>, known: Seq<String>, placed: Seq<usize>, s: Struct) -> bool {
    forall|n: Seq<char>|
        #[trigger] references(s, n) ==> is_known(known, n) || placed_name(structs, placed, n)
}

/// One scan over the structs from position `i`, in discovery order: each
/// struct not yet placed whose references are all defined is appended.
pub open spec fn pass(structs: Seq<Struct>, known: Seq<String>, placed: Seq<usize>, i: int) -> Seq<
    usize,
>
    decreases structs.len() - i,
{
    if i < 0 || i >= structs.len() {
        placed
    } else if !placed.contains(i as usize) && ready(structs, known, placed, structs[i]) {
        pass(structs, known, placed.push(i as usize), i + 1)
    } else {
        pass(structs, known, placed, i + 1)
    }
}

/// Scans repeated until one places nothing.
pub open spec fn rounds(structs: Seq<Struct>, known: Seq<String>, placed: Seq<usize>) -> Seq<usize>
    decreases structs.len() - placed.len(),
{
    let next = pass(structs, known, placed, 0);
    if placed.len() < next.len() && next.len() <= structs.len() {
        rounds(structs, known, next)
    } else {
        placed
    }
}

/// The positions of the structs in emission order. It covers every struct
/// exactly when an order without forward references was found.
pub open spec fn emission_order(structs: Seq<Struct>, known: Seq<String>) -> Seq<usize> {
    rounds(structs, known, Seq::empty())
}

/// Distinct positions into a sequence of `n`.
pub open spec fn indices_ok(s: Seq<usize>, n: int) -> bool {
    &&& s.no_duplicates()
    &&& forall|i: int| 0 <= i < s.len() ==> (#[trigger] s[i]) < n
}

/// Each struct of the sequence comes after every struct it references,
/// unless the referenced name is pre-known.
pub open spec fn no_forward_reference(structs: Seq<Struct>, known: Seq<String>, o: Seq<usize>) -> bool {
    forall|k: int|
        0 <= k < o.len() ==> ready(structs, known, o.subrange(0, k), #[trigger] structs[o[k] as int])
}

/// An emission order of all the structs without forward references.
pub open spec fn is_valid_order(structs: Seq<Struct>, known: Seq<String>, o: Seq<usize>) -> bool {
    &&& o.len() == structs.len()
    &&& indices_ok(o, structs.len() as int)
    &&& no_forward_reference(structs, known, o)
}

proof fn lemma_indices_cover(s: Seq<usize>, n: int)
    requires
        indices_ok(s, n),
        0 <= n <= usize::MAX,
    ensures
        s.len() <= n,
        s.len() == n <==> forall|x: int| 0 <= x < n ==> #[trigger] s.contains(x as usize),
{
    let m = s.map_values(|x: usize| x as int);
    assert(m.no_duplicates()) by {
        assert forall|i: int, j: int| 0 <= i < m.len() && 0 <= j < m.len() && i != j implies m[i]
            != m[j] by {
            assert(s[i] != s[j]);
        }
    }
    m.unique_seq_to_set();
    lemma_int_range(0, n);
    assert(m.to_set().subset_of(set_int_range(0, n))) by {
        assert forall|x: int| m.to_set().contains(x) implies set_int_range(0, n).contains(x) by {
            let i = choose|i: int| 0 <= i < m.len() && m[i] == x;
            assert(s[i] < n);
        }
    }
    lemma_len_subset(m.to_set(), set_int_range(0, n));
    if s.len() == n {
        assert forall|x: int| 0 <= x < n implies #[trigger] s.contains(x as usize) by {
            if !m.to_set().contains(x) {
                m.to_set().lemma_subset_not_in_lt(set_int_range(0, n), x);
            }
            let i = choose|i: int| 0 <= i < m.len() && m[i] == x;
            assert(s[i] == x as usize);
        }
    }
    if forall|x: int| 0 <= x < n ==> #[trigger] s.contains(x as usize) {
        assert(set_int_range(0, n).subset_of(m.to_set())) by {
            assert forall|x: int| set_int_range(0, n).contains(x) implies m.to_set().contains(x) by {
                assert(s.contains(x as usize));
                let i = choose|i: int| 0 <= i < s.len() && s[i] == x as usize;
                assert(m[i] == x);
            }
        }
        lemma_len_subset(set_int_range(0, n), m.to_set());
    }
}

proof fn lemma_pass_props(structs: Seq<Struct>, known: Seq<String>, placed: Seq<usize>, i: int)
    requires
        indices_ok(placed, structs.len() as int),
        no_forward_reference(structs, known, placed),
        structs.len() <= usize::MAX,
        0 <= i,
    ensures
        indices_ok(pass(structs, known, placed, i), structs.len() as int),
        no_forward_reference(structs, known, pass(structs, known, placed, i)),
        pass(structs, known, placed, i).len() >= placed.len(),
        pass(structs, known, placed, i).subrange(0, placed.len() as int) == placed,
        pass(structs, known, placed, i).len() == placed.len() ==> forall|j: int|
            i <= j < structs.len() && !placed.contains(j as usize) ==> !ready(
                structs,
                known,
                placed,
                #[trigger] structs[j],
            ),
    decreases structs.len() - i,
{
    if i >= structs.len() {
        assert(placed.subrange(0, placed.len() as int) =~= placed);
    } else if !placed.contains(i as usize) && ready(structs, known, placed, structs[i]) {
        let next = placed.push(i as usize);
        assert(next.subrange(0, placed.len() as int) =~= placed);
        assert forall|k: int| 0 <= k < next.len() implies ready(
            structs,
            known,
            next.subrange(0, k),
            #[trigger] structs[next[k] as int],
        ) by {
            if k < placed.len() {
                assert(next.subrange(0, k) =~= placed.subrange(0, k));
            } else {
                assert(next.subrange(0, k) =~= placed);
            }
        }
        lemma_pass_props(structs, known, next, i + 1);
        let r = pass(structs, known, next, i + 1);
        assert(r.subrange(0, placed.len() as int) =~= r.subrange(0, next.len() as int).subrange(
            0,
            placed.len() as int,
        ));
    } else {
        lemma_pass_props(structs, known, placed, i + 1);
    }
}

proof fn lemma_rounds_props(structs: Seq<Struct>, known: Seq<String>, placed: Seq<usize>)
    requires
        indices_ok(placed, structs.len() as int),
        no_forward_reference(structs, known, placed),
        structs.len() <= usize::MAX,
    ensures
        indices_ok(rounds(structs, known, placed), structs.len() as int),
        no_forward_reference(structs, known, rounds(structs, known, placed)),
        forall|j: int|
            0 <= j < structs.len() && !rounds(structs, known, placed).contains(j as usize) ==> !ready(
                structs,
                known,
                rounds(structs, known, placed),
                #[trigger] structs[j],
            ),
    decreases structs.len() - placed.len(),
{
    let next = pass(structs, known, placed, 0);
    lemma_pass_props(structs, known, placed, 0);
    lemma_indices_cover(next, structs.len() as int);
    if placed.len() < next.len() && next.len() <= structs.len() {
        lemma_rounds_props(structs, known, next);
    }
}

/// The emission order never places a struct before what it references, and
/// never places a struct twice.
pub proof fn lemma_emission_order_sound(structs: Seq<Struct>, known: Seq<String>)
    requires
        structs.len() <= usize::MAX,
    ensures
        indices_ok(emission_order(structs, known), structs.len() as int),
        no_forward_reference(structs, known, emission_order(structs, known)),
        emission_order(structs, known).len() == structs.len() ==> is_valid_order(
            structs,
            known,
            emission_order(structs, known),
        ),
{
    lemma_rounds_props(structs, known, Seq::empty());
}

/// The first position at or after `i` whose struct is not among `p`.
spec fn first_outside(o: Seq<usize>, p: Seq<usize>, i: int) -> int
    decreases o.len() - i,
{
    if i < 0 || i >= o.len() {
        o.len() as int
    } else if !p.contains(o[i]) {
        i
    } else {
        first_outside(o, p, i + 1)
    }
}

proof fn lemma_first_outside(o: Seq<usize>, p: Seq<usize>, i: int, x: int)
    requires
        0 <= i <= x < o.len(),
        !p.contains(o[x]),
    ensures
        i <= first_outside(o, p, i) <= x,
        !p.contains(o[first_outside(o, p, i)]),
        forall|j: int| i <= j < first_outside(o, p, i) ==> p.contains(#[trigger] o[j]),
    decreases o.len() - i,
{
    if p.contains(o[i]) {
        lemma_first_outside(o, p, i + 1, x);
    }
}

/// When the emission order leaves a struct out, no order without forward
/// references exists: the references are cyclic or unresolved.
pub proof fn lemma_emission_order_complete(structs: Seq<Struct>, known: Seq<String>)
    requires
        structs.len() <= usize::MAX,
    ensures
        emission_order(structs, known).len() < structs.len() ==> forall|o: Seq<usize>|
            !is_valid_order(structs, known, o),
{
    let p = emission_order(structs, known);
    lemma_rounds_props(structs, known, Seq::empty());
    if p.len() < structs.len() {
        assert forall|o: Seq<usize>| !is_valid_order(structs, known, o) by {
            if is_valid_order(structs, known, o) {
                let n = structs.len() as int;
                lemma_indices_cover(p, n);
                lemma_indices_cover(o, n);
                let x = choose|x: int| 0 <= x < n && !#[trigger] p.contains(x as usize);
                assert(o.contains(x as usize));
                let xi = choose|xi: int| 0 <= xi < o.len() && o[xi] == x as usize;
                lemma_first_outside(o, p, 0, xi);
                let k = first_outside(o, p, 0);
                let s = structs[o[k] as int];
                assert(ready(structs, known, o.subrange(0, k), s));
                assert(!ready(structs, known, p, s));
                let name = choose|name: Seq<char>|
                    #[trigger] references(s, name) && !(is_known(known, name) || placed_name(
                        structs,
                        p,
                        name,
                    ));
                assert(placed_name(structs, o.subrange(0, k), name));
                let j = choose|j: int|
                    0 <= j < k && (#[trigger] structs[o.subrange(0, k)[j] as int]).name@ == name;
                assert(p.contains(o[j]));
                let jj = choose|jj: int| 0 <= jj < p.len() && p[jj] == o[j];
                assert(structs[p[jj] as int].name@ == name);
            }
        }
    }
}

/// Two structs that reference each other's names directly, neither name
/// pre-known and each name borne by one struct only, leave the emission
/// order incomplete: generation fails rather than emit either.
pub proof fn lemma_mutual_reference_unresolved(
    structs: Seq<Struct>,
    known: Seq<String>,
    a: int,
    b: int,
)
    requires
        structs.len() <= usize::MAX,
        0 <= a < structs.len(),
        0 <= b < structs.len(),
        references(structs[a], structs[b].name@),
        references(structs[b], structs[a].name@),
        !is_known(known, structs[a].name@),
        !is_known(known, structs[b].name@),
        forall|x: int|
            0 <= x < structs.len() && (#[trigger] structs[x]).name@ == structs[a].name@ ==> x == a,
        forall|x: int|
            0 <= x < structs.len() && (#[trigger] structs[x]).name@ == structs[b].name@ ==> x == b,
    ensures
        emission_order(structs, known).len() < structs.len(),
{
    let o = emission_order(structs, known);
    let n = structs.len() as int;
    lemma_emission_order_sound(structs, known);
    lemma_indices_cover(o, n);
    if o.len() == structs.len() {
        assert(o.contains(a as usize));
        assert(o.contains(b as usize));
        let pa = choose|pa: int| 0 <= pa < o.len() && o[pa] == a as usize;
        let pb = choose|pb: int| 0 <= pb < o.len() && o[pb] == b as usize;
        // Each of the two must come after the other.
        assert(ready(structs, known, o.subrange(0, pa), structs[o[pa] as int]));
        assert(placed_name(structs, o.subrange(0, pa), structs[b].name@));
        let ja = choose|j: int|
            0 <= j < pa && (#[trigger] structs[o.subrange(0, pa)[j] as int]).name@ == structs[b].name@;
        assert(structs[o[ja] as int].name@ == structs[b].name@);
        assert(ready(structs, known, o.subrange(0, pb), structs[o[pb] as int]));
        assert(placed_name(structs, o.subrange(0, pb), structs[a].name@));
        let jb = choose|j: int|
            0 <= j < pb && (#[trigger] structs[o.subrange(0, pb)[j] as int]).name@ == structs[a].name@;
        assert(structs[o[jb] as int].name@ == structs[a].name@);
        assert(o[ja] as int == b);
        assert(o[jb] as int == a);
        assert(ja == pb);
        assert(jb == pa);
    }
}

/// The positions, below `n`, that the placed sequence leaves out, in order.
pub open spec fn unplaced(placed: Seq<usize>, n: int) -> Seq<int>
    decreases n,
{
    if n <= 0 {
        Seq::empty()
    } else if placed.contains((n - 1) as usize) {
        unplaced(placed, n - 1)
    } else {
        unplaced(placed, n - 1).push(n - 1)
    }
}

/// The names the fields refer to directly that are neither pre-known nor
/// borne by a placed struct, in field order.
pub open spec fn missing_refs(
    structs: Seq<Struct>,
    known: Seq<String>,
    placed: Seq<usize>,
    fs: Seq<(String, CanonicalType)>,
) -> Seq<Seq<char>>
    decreases fs.len(),
{
    if fs.len() == 0 {
        Seq::empty()
    } else {
        let prev = missing_refs(structs, known, placed, fs.drop_last());
        let r = direct_reference(fs.last().1);
        if r is Some && !is_known(known, r->0@) && !placed_name(structs, placed, r->0@) {
            prev.push(r->0@)
        } else {
            prev
        }
    }
}

/// The report lists each struct left out, in discovery order, with what it
/// still references.
pub open spec fn is_unresolved_report(
    structs: Seq<Struct>,
    known: Seq<String>,
    placed: Seq<usize>,
    report: Seq<Unresolved>,
) -> bool {
    let rem = unplaced(placed, structs.len() as int);
    &&& report.len() == rem.len()
    &&& forall|k: int|
        0 <= k < rem.len() ==> (#[trigger] report[k]).name == structs[rem[k]].name
            && report[k].missing@.map_values(|m: String| m@) == missing_refs(
            structs,
            known,
            placed,
            structs[rem[k]].fields@,
        )
}

fn direct_reference_of(t: &CanonicalType) -> (r: Option<String>)
    ensures
        r == direct_reference(*t),
    decreases t,
{
    match t {
        CanonicalType::Named(n) => Some(n.clone()),
        CanonicalType::Array(e, _) => direct_reference_of(e),
        _ => None,
    }
}

fn known_name(known: &Vec<String>, n: &str) -> (r: bool)
    ensures
        r == is_known(known@, n@),
{
    let mut j: usize = 0;
    while j < known.len()
        invariant
            0 <= j <= known@.len(),
            forall|k: int| 0 <= k < j ==> (#[trigger] known@[k])@ != n@,
        decreases known@.len() - j,
    {
        if text_eq(known[j].as_str(), n) {
            return true;
        }
        j += 1;
    }
    false
}

fn placed_has(structs: &[Struct], placed: &Vec<usize>, n: &str) -> (r: bool)
    requires
        indices_ok(placed@, structs@.len() as int),
    ensures
        r == placed_name(structs@, placed@, n@),
{
    let mut j: usize = 0;
    while j < placed.len()
        invariant
            0 <= j <= placed@.len(),
            indices_ok(placed@, structs@.len() as int),
            forall|k: int| 0 <= k < j ==> (#[trigger] structs@[placed@[k] as int]).name@ != n@,
        decreases placed@.len() - j,
    {
        if text_eq(structs[placed[j]].name.as_str(), n) {
            return true;
        }
        j += 1;
    }
    false
}

fn contains_index(v: &Vec<usize>, x: usize) -> (r: bool)
    ensures
        r == v@.contains(x),
{
    let mut j: usize = 0;
    while j < v.len()
        invariant
            0 <= j <= v@.len(),
            forall|k: int| 0 <= k < j ==> v@[k] != x,
        decreases v@.len() - j,
    {
        if v[j] == x {
            return true;
        }
        j += 1;
    }
    false
}

fn is_ready(structs: &[Struct], known: &Vec<String>, placed: &Vec<usize>, s: &Struct) -> (r: bool)
    requires
        indices_ok(placed@, structs@.len() as int),
    ensures
        r == ready(structs@, known@, placed@, *s),
{
    let mut k: usize = 0;
    while k < s.fields.len()
        invariant
            0 <= k <= s.fields@.len(),
            indices_ok(placed@, structs@.len() as int),
            forall|kk: int|
                0 <= kk < k && (#[trigger] direct_reference(s.fields@[kk].1)) is Some ==> is_known(
                    known@,
                    direct_reference(s.fields@[kk].1)->0@,
                ) || placed_name(structs@, placed@, direct_reference(s.fields@[kk].1)->0@),
        decreases s.fields@.len() - k,
    {
        if let Some(n) = direct_reference_of(&s.fields[k].1) {
            if !known_name(known, n.as_str()) && !placed_has(structs, placed, n.as_str()) {
                assert(references(*s, n@));
                return false;
            }
        }
        k += 1;
    }
    assert forall|n: Seq<char>| #[trigger] references(*s, n) implies is_known(known@, n)
        || placed_name(structs@, placed@, n) by {
        let kk = choose|kk: int|
            0 <= kk < s.fields@.len() && (#[trigger] direct_reference(s.fields@[kk].1)) is Some
                && direct_reference(s.fields@[kk].1)->0@ == n;
    }
    true
}

fn missing_names(structs: &[Struct], known: &Vec<String>, placed: &Vec<usize>, s: &Struct) -> (r:
    Vec<String>)
    requires
        indices_ok(placed@, structs@.len() as int),
    ensures
        r@.map_values(|m: String| m@) == missing_refs(structs@, known@, placed@, s.fields@),
{
    let mut out: Vec<String> = Vec::new();
    let mut k: usize = 0;
    assert(out@.map_values(|m: String| m@) =~= missing_refs(
        structs@,
        known@,
        placed@,
        s.fields@.subrange(0, 0),
    ));
    while k < s.fields.len()
        invariant
            0 <= k <= s.fields@.len(),
            indices_ok(placed@, structs@.len() as int),
            out@.map_values(|m: String| m@) == missing_refs(
                structs@,
                known@,
                placed@,
                s.fields@.subrange(0, k as int),
            ),
        decreases s.fields@.len() - k,
    {
        let ghost before = out@;
        assert(s.fields@.subrange(0, k + 1).drop_last() =~= s.fields@.subrange(0, k as int));
        if let Some(n) = direct_reference_of(&s.fields[k].1) {
            if !known_name(known, n.as_str()) && !placed_has(structs, placed, n.as_str()) {
                out.push(n);
                assert(out@.map_values(|m: String| m@) =~= before.map_values(|m: String| m@).push(
                    out@.last()@,
                ));
            }
        }
        k += 1;
    }
    assert(s.fields@.subrange(0, s.fields@.len() as int) =~= s.fields@);
    out
}

/// Orders the structs so that each comes after every struct it references
/// directly, unless the referenced name is in `defined`. Structs without a
/// constraint between them keep their discovery order. When no such order
/// exists, fails with the structs left out and what each still references.
pub fn sort_structs(structs: &[Struct], defined: Vec<String>) -> (r: Result<Vec<Struct>, GenError>)
    ensures
        match r {
            Ok(v) => {
                &&& emission_order(structs@, defined@).len() == structs@.len()
                &&& v@.len() == structs@.len()
                &&& forall|k: int|
                    0 <= k < v@.len() ==> same_struct(
                        #[trigger] v@[k],
                        structs@[emission_order(structs@, defined@)[k] as int],
                    )
            },
            Err(e) => {
                &&& emission_order(structs@, defined@).len() < structs@.len()
                &&& e matches GenError::UnresolvedDependency(report)
                &&& is_unresolved_report(
                    structs@,
                    defined@,
                    emission_order(structs@, defined@),
                    report@,
                )
            },
        },
{
    let n = structs.len();
    let mut placed: Vec<usize> = Vec::new();
    assert(placed@ =~= Seq::<usize>::empty());
    loop
        invariant
            n == structs@.len(),
            indices_ok(placed@, n as int),
            no_forward_reference(structs@, defined@, placed@),
            emission_order(structs@, defined@) == rounds(structs@, defined@, placed@),
        ensures
            indices_ok(placed@, n as int),
            emission_order(structs@, defined@) == placed@,
        decreases n - placed@.len(),
    {
        let ghost start = placed@;
        let before = placed.len();
        let mut i: usize = 0;
        while i < n
            invariant
                0 <= i <= n,
                n == structs@.len(),
                before == start.len(),
                indices_ok(placed@, n as int),
                pass(structs@, defined@, start, 0) == pass(structs@, defined@, placed@, i as int),
            decreases n - i,
        {
            if !contains_index(&placed, i) && is_ready(structs, &defined, &placed, &structs[i]) {
                placed.push(i);
            }
            i += 1;
        }
        proof {
            lemma_pass_props(structs@, defined@, start, 0);
            lemma_indices_cover(placed@, n as int);
        }
        if placed.len() == before {
            assert(placed@ =~= placed@.subrange(0, start.len() as int));
            break ;
        }
    }
    if placed.len() == n {
        let mut v: Vec<Struct> = Vec::new();
        let mut k: usize = 0;
        while k < n
            invariant
                0 <= k <= n,
                n == structs@.len(),
                placed@.len() == n,
                indices_ok(placed@, n as int),
                emission_order(structs@, defined@) == placed@,
                v@.len() == k,
                forall|j: int|
                    0 <= j < k ==> same_struct(#[trigger] v@[j], structs@[placed@[j] as int]),
            decreases n - k,
        {
            v.push(structs[placed[k]].duplicate());
            k += 1;
        }
        Ok(v)
    } else {
        proof {
            lemma_indices_cover(placed@, n as int);
        }
        let mut report: Vec<Unresolved> = Vec::new();
        let mut i: usize = 0;
        while i < n
            invariant
                0 <= i <= n,
                n == structs@.len(),
                indices_ok(placed@, n as int),
                report@.len() == unplaced(placed@, i as int).len(),
                forall|k: int|
                    0 <= k < report@.len() ==> (#[trigger] report@[k]).name == structs@[unplaced(
                        placed@,
                        i as int,
                    )[k]].name && report@[k].missing@.map_values(|m: String| m@) == missing_refs(
                        structs@,
                        defined@,
                        placed@,
                        structs@[unplaced(placed@, i as int)[k]].fields@,
                    ),
            decreases n - i,
        {
            if !contains_index(&placed, i) {
                let missing = missing_names(structs, &defined, &placed, &structs[i]);
                report.push(Unresolved { name: structs[i].name.clone(), missing });
            }
            i += 1;
        }
        Err(GenError::UnresolvedDependency(report))
    }
}

} // verus!
