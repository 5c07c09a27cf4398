//! Runs of self-delimiting entries: a byte run splits into entries from the
//! front, the size of each entry being read from its own first bytes.
use crate::wire::concat_map;
use vstd::prelude::*;

verus! {

/// `len` reads an entry's size from its leading bytes: appending bytes after a
/// complete entry does not change it.
pub open spec fn len_stable(len: spec_fn(Seq<u8>) -> int) -> bool {
    forall|a: Seq<u8>, b: Seq<u8>|
        #![trigger len(a + b)]
        0 < len(a) <= a.len() ==> len(a + b) == len(a)
}

/// The run `s` splits completely into entries whose sizes `len` gives.
pub open spec fn run_ok(s: Seq<u8>, len: spec_fn(Seq<u8>) -> int) -> bool
    decreases s.len(),
{
    if s.len() == 0 {
        true
    } else {
        let l = len(s);
        if 0 < l <= s.len() {
            run_ok(s.subrange(l, s.len() as int), len)
        } else {
            false
        }
    }
}

/// `es` is what splitting the run `s` yields: entry `i` is `dec`oded from the
/// bytes of the `i`-th entry.
pub open spec fn run_decodes<E>(
    es: Seq<E>,
    s: Seq<u8>,
    len: spec_fn(Seq<u8>) -> int,
    dec: spec_fn(E, Seq<u8>) -> bool,
) -> bool
    decreases s.len(),
{
    if s.len() == 0 {
        es.len() == 0
    } else {
        let l = len(s);
        &&& 0 < l <= s.len()
        &&& es.len() > 0
        &&& dec(es[0], s.subrange(0, l))
        &&& run_decodes(es.drop_first(), s.subrange(l, s.len() as int), len, dec)
    }
}

/// Every entry of the run `s` satisfies `p`.
pub open spec fn run_all(s: Seq<u8>, len: spec_fn(Seq<u8>) -> int, p: spec_fn(Seq<u8>) -> bool) -> bool
    decreases s.len(),
{
    if s.len() == 0 {
        true
    } else {
        let l = len(s);
        if 0 < l <= s.len() {
            p(s.subrange(0, l)) && run_all(s.subrange(l, s.len() as int), len, p)
        } else {
            false
        }
    }
}

/// Appending one complete entry to a decoded run extends the decoded list.
pub proof fn lemma_run_push<E>(
    es: Seq<E>,
    a: Seq<u8>,
    e: E,
    b: Seq<u8>,
    len: spec_fn(Seq<u8>) -> int,
    dec: spec_fn(E, Seq<u8>) -> bool,
)
    requires
        len_stable(len),
        run_decodes(es, a, len, dec),
        0 < len(b) == b.len(),
        dec(e, b),
    ensures
        run_decodes(es.push(e), a + b, len, dec),
    decreases a.len(),
{
    if a.len() == 0 {
        assert(a + b =~= b);
        assert(b.subrange(0, len(b) as int) =~= b);
        assert(es.push(e).drop_first() =~= Seq::<E>::empty());
        assert(b.subrange(len(b), b.len() as int) =~= Seq::<u8>::empty());
        assert(run_decodes(es.push(e).drop_first(), b.subrange(len(b), b.len() as int), len, dec));
        assert(es.push(e)[0] == e);
    } else {
        let l = len(a);
        let a0 = a.subrange(0, l);
        let a1 = a.subrange(l, a.len() as int);
        assert(len(a + b) == l);
        lemma_run_push(es.drop_first(), a1, e, b, len, dec);
        assert(es.push(e).drop_first() =~= es.drop_first().push(e));
        assert((a + b).subrange(0, l) =~= a0);
        assert((a + b).subrange(l, (a + b).len() as int) =~= a1 + b);
        assert(es.push(e)[0] == es[0]);
        assert(dec(es.push(e)[0], (a + b).subrange(0, l)));
        assert(run_decodes(es.push(e).drop_first(), (a + b).subrange(l, (a + b).len() as int), len, dec));
    }
}

/// A run of encoded entries, each decoding to its entry and sized by its own
/// leading bytes, splits back into those entries.
pub proof fn lemma_run_of_encoded<E>(
    es: Seq<E>,
    len: spec_fn(Seq<u8>) -> int,
    dec: spec_fn(E, Seq<u8>) -> bool,
    enc: spec_fn(E) -> Seq<u8>,
)
    requires
        len_stable(len),
        forall|i: int|
            0 <= i < es.len() ==> 0 < len(#[trigger] enc(es[i])) == enc(es[i]).len() && dec(
                es[i],
                enc(es[i]),
            ),
    ensures
        run_ok(concat_map(es, enc), len),
        run_decodes(es, concat_map(es, enc), len, dec),
    decreases es.len(),
{
    if es.len() > 0 {
        let init = es.drop_last();
        assert forall|i: int| 0 <= i < init.len() implies 0 < len(#[trigger] enc(init[i]))
            == enc(init[i]).len() && dec(init[i], enc(init[i])) by {
            assert(init[i] == es[i]);
        }
        lemma_run_of_encoded(init, len, dec, enc);
        let last = es[es.len() - 1];
        assert(0 < len(enc(last)) == enc(last).len());
        lemma_run_push(init, concat_map(init, enc), last, enc(last), len, dec);
        assert(init.push(last) =~= es);
        lemma_run_ok_push(concat_map(init, enc), enc(last), len);
    }
}

/// Appending one complete entry to a run that splits keeps it splitting.
pub proof fn lemma_run_ok_push(a: Seq<u8>, b: Seq<u8>, len: spec_fn(Seq<u8>) -> int)
    requires
        len_stable(len),
        run_ok(a, len),
        0 < len(b) == b.len(),
    ensures
        run_ok(a + b, len),
    decreases a.len(),
{
    if a.len() == 0 {
        assert(a + b =~= b);
        assert(b.subrange(len(b), b.len() as int) =~= Seq::<u8>::empty());
        assert(run_ok(b.subrange(len(b), b.len() as int), len));
    } else {
        let l = len(a);
        let a0 = a.subrange(0, l);
        let a1 = a.subrange(l, a.len() as int);
        assert(len(a + b) == l);
        lemma_run_ok_push(a1, b, len);
        assert((a + b).subrange(l, (a + b).len() as int) =~= a1 + b);
        assert(run_ok((a + b).subrange(l, (a + b).len() as int), len));
    }
}

/// A decoded run whose entries all re-encode to their own bytes is the
/// concatenation of the entries' encodings; every entry then has property `good`
/// when every canonical entry does.
pub proof fn lemma_run_reencodes<E>(
    es: Seq<E>,
    s: Seq<u8>,
    len: spec_fn(Seq<u8>) -> int,
    dec: spec_fn(E, Seq<u8>) -> bool,
    enc: spec_fn(E) -> Seq<u8>,
    canon: spec_fn(Seq<u8>) -> bool,
    good: spec_fn(E) -> bool,
)
    requires
        run_decodes(es, s, len, dec),
        run_all(s, len, canon),
        forall|e: E, t: Seq<u8>| #[trigger] dec(e, t) && canon(t) ==> enc(e) == t && good(e),
    ensures
        concat_map(es, enc) == s,
        forall|i: int| 0 <= i < es.len() ==> #[trigger] good(es[i]),
    decreases s.len(),
{
    if s.len() > 0 {
        let l = len(s);
        lemma_run_reencodes(es.drop_first(), s.subrange(l, s.len() as int), len, dec, enc, canon, good);
        lemma_concat_map_front(es, enc);
        assert(s =~= s.subrange(0, l) + s.subrange(l, s.len() as int));
        assert forall|i: int| 0 <= i < es.len() implies #[trigger] good(es[i]) by {
            if i > 0 {
                assert(es[i] == es.drop_first()[i - 1]);
            }
        }
    } else {
        assert(concat_map(es, enc) =~= s);
    }
}

/// Entries split from a run keep what decoding one entry gives them (`good`),
/// and encode to a run no longer than the split one when no entry's encoding is
/// longer than its bytes.
pub proof fn lemma_run_relength<E>(
    es: Seq<E>,
    s: Seq<u8>,
    len: spec_fn(Seq<u8>) -> int,
    dec: spec_fn(E, Seq<u8>) -> bool,
    enc: spec_fn(E) -> Seq<u8>,
    good: spec_fn(E) -> bool,
)
    requires
        run_decodes(es, s, len, dec),
        forall|e: E, t: Seq<u8>| #[trigger] dec(e, t) ==> enc(e).len() <= t.len() && good(e),
    ensures
        concat_map(es, enc).len() <= s.len(),
        forall|i: int| 0 <= i < es.len() ==> #[trigger] good(es[i]),
    decreases s.len(),
{
    if s.len() > 0 {
        let l = len(s);
        lemma_run_relength(es.drop_first(), s.subrange(l, s.len() as int), len, dec, enc, good);
        lemma_concat_map_front(es, enc);
        assert forall|i: int| 0 <= i < es.len() implies #[trigger] good(es[i]) by {
            if i > 0 {
                assert(es[i] == es.drop_first()[i - 1]);
            }
        }
    } else {
        assert(concat_map(es, enc) =~= Seq::<u8>::empty());
    }
}

/// Splitting a run is deterministic: two entry lists split from the same run are
/// equally long, and their entries at each position are related by `same`
/// whenever decoding the same bytes relates any two entries by it.
pub proof fn lemma_run_decodes_same<E>(
    es1: Seq<E>,
    es2: Seq<E>,
    s: Seq<u8>,
    len: spec_fn(Seq<u8>) -> int,
    dec: spec_fn(E, Seq<u8>) -> bool,
    same: spec_fn(E, E) -> bool,
)
    requires
        run_decodes(es1, s, len, dec),
        run_decodes(es2, s, len, dec),
        forall|a: E, b: E, t: Seq<u8>| #![trigger dec(a, t), dec(b, t)] dec(a, t) && dec(b, t) ==> same(a, b),
    ensures
        es1.len() == es2.len(),
        forall|i: int| 0 <= i < es1.len() ==> #[trigger] same(es1[i], es2[i]),
    decreases s.len(),
{
    if s.len() > 0 {
        let l = len(s);
        lemma_run_decodes_same(es1.drop_first(), es2.drop_first(), s.subrange(l, s.len() as int), len, dec, same);
        assert(dec(es1[0], s.subrange(0, l)) && dec(es2[0], s.subrange(0, l)));
        assert forall|i: int| 0 <= i < es1.len() implies #[trigger] same(es1[i], es2[i]) by {
            if i > 0 {
                assert(es1[i] == es1.drop_first()[i - 1]);
                assert(es2[i] == es2.drop_first()[i - 1]);
            }
        }
    }
}

/// `concat_map` splits off its first element.
pub proof fn lemma_concat_map_front<E>(es: Seq<E>, f: spec_fn(E) -> Seq<u8>)
    requires
        es.len() > 0,
    ensures
        concat_map(es, f) == f(es[0]) + concat_map(es.drop_first(), f),
    decreases es.len(),
{
    if es.len() == 1 {
        assert(es.drop_last() =~= Seq::<E>::empty());
        assert(es.drop_first() =~= Seq::<E>::empty());
        assert(concat_map(es, f) =~= f(es[0]) + concat_map(es.drop_first(), f));
    } else {
        lemma_concat_map_front(es.drop_last(), f);
        assert(es.drop_last().drop_first() =~= es.drop_first().drop_last());
        assert(es.drop_first().last() == es.last());
        assert(concat_map(es, f) =~= f(es[0]) + concat_map(es.drop_first(), f));
    }
}

/// Where splitting the run `s` stops: the offset of the first entry that does
/// not fit (the end of `s` when the whole run splits).
pub open spec fn run_fail_at(s: Seq<u8>, len: spec_fn(Seq<u8>) -> int) -> int
    decreases s.len(),
{
    if s.len() == 0 {
        0
    } else {
        let l = len(s);
        if 0 < l <= s.len() {
            l + run_fail_at(s.subrange(l, s.len() as int), len)
        } else {
            0
        }
    }
}

/// One step of splitting: a fitting first entry moves the run (and where it
/// stops) past that entry.
pub proof fn lemma_run_step(s: Seq<u8>, p: int, len: spec_fn(Seq<u8>) -> int)
    requires
        0 <= p < s.len(),
        0 < len(s.subrange(p, s.len() as int)) <= s.len() - p,
    ensures
        ({
            let t = s.subrange(p, s.len() as int);
            let q = p + len(t);
            &&& run_ok(t, len) == run_ok(s.subrange(q, s.len() as int), len)
            &&& run_fail_at(t, len) == len(t) + run_fail_at(s.subrange(q, s.len() as int), len)
        }),
{
    let t = s.subrange(p, s.len() as int);
    let q = p + len(t);
    assert(t.subrange(len(t), t.len() as int) =~= s.subrange(q, s.len() as int));
}

/// The number of entries that a run splits into.
pub open spec fn run_count(s: Seq<u8>, len: spec_fn(Seq<u8>) -> int) -> nat
    decreases s.len(),
{
    if s.len() == 0 {
        0
    } else {
        let l = len(s);
        if 0 < l <= s.len() {
            1 + run_count(s.subrange(l, s.len() as int), len)
        } else {
            0
        }
    }
}

} // verus!
