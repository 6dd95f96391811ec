use vstd::prelude::*;

verus! {

/// Byte that separates the segments of a token and the fields of its payload.
pub const SEP: u8 = 46;

/// Holds when no byte of `s` is the separator.
pub open spec fn sep_free(s: Seq<u8>) -> bool {
    forall|i: int| 0 <= i < s.len() ==> s[i] != SEP
}

/// The views of a list of byte vectors.
pub open spec fn part_views(parts: Seq<Vec<u8>>) -> Seq<Seq<u8>> {
    Seq::new(parts.len(), |i: int| parts[i]@)
}

/// The parts joined with one separator between consecutive parts.
pub open spec fn join_parts(parts: Seq<Seq<u8>>) -> Seq<u8>
    decreases parts.len(),
{
    if parts.len() == 0 {
        Seq::empty()
    } else if parts.len() == 1 {
        parts[0]
    } else {
        parts[0] + seq![SEP] + join_parts(parts.drop_first())
    }
}

/// The segments of `s` between separators. Empty segments are kept, and a
/// sequence without any separator is a single segment, so the result always
/// holds at least one part.
pub open spec fn split_parts(s: Seq<u8>) -> Seq<Seq<u8>>
    decreases s.len(),
{
    if s.len() == 0 {
        seq![Seq::<u8>::empty()]
    } else if s[0] == SEP {
        seq![Seq::<u8>::empty()] + split_parts(s.drop_first())
    } else {
        let rest = split_parts(s.drop_first());
        seq![seq![s[0]] + rest[0]] + rest.drop_first()
    }
}

pub proof fn lemma_split_parts_len(s: Seq<u8>)
    ensures
        split_parts(s).len() >= 1,
    decreases s.len(),
{
    if s.len() == 0 {
    } else {
        lemma_split_parts_len(s.drop_first());
    }
}

/// Every part that splitting yields is separator-free.
pub proof fn lemma_split_parts_sep_free(s: Seq<u8>)
    ensures
        forall|i: int| 0 <= i < split_parts(s).len() ==> sep_free(#[trigger] split_parts(s)[i]),
    decreases s.len(),
{
    if s.len() == 0 {
        assert(sep_free(split_parts(s)[0]));
    } else if s[0] == SEP {
        lemma_split_parts_sep_free(s.drop_first());
        let rest = split_parts(s.drop_first());
        assert forall|i: int| 0 <= i < split_parts(s).len() implies sep_free(
            #[trigger] split_parts(s)[i],
        ) by {
            if i > 0 {
                assert(split_parts(s)[i] == rest[i - 1]);
            }
        }
    } else {
        lemma_split_parts_sep_free(s.drop_first());
        lemma_split_parts_len(s.drop_first());
        let rest = split_parts(s.drop_first());
        assert forall|i: int| 0 <= i < split_parts(s).len() implies sep_free(
            #[trigger] split_parts(s)[i],
        ) by {
            if i == 0 {
                assert(sep_free(rest[0]));
                assert(split_parts(s)[0] == seq![s[0]] + rest[0]);
                assert(sep_free(seq![s[0]] + rest[0]));
            } else {
                assert(split_parts(s)[i] == rest.drop_first()[i - 1]);
                assert(rest.drop_first()[i - 1] == rest[i]);
            }
        }
    }
}

/// A separator-free sequence splits into itself alone.
pub proof fn lemma_split_sep_free(p: Seq<u8>)
    requires
        sep_free(p),
    ensures
        split_parts(p) == seq![p],
    decreases p.len(),
{
    if p.len() == 0 {
        assert(split_parts(p) =~~= seq![p]);
    } else {
        assert(p[0] != SEP);
        assert(sep_free(p.drop_first()));
        lemma_split_sep_free(p.drop_first());
        lemma_split_parts_len(p.drop_first());
        assert(split_parts(p.drop_first())[0] == p.drop_first());
        assert(seq![p[0]] + p.drop_first() =~= p);
        assert(split_parts(p) =~~= seq![p]);
    }
}

/// Splitting a sequence that starts with a separator-free part followed by a
/// separator peels off exactly that part.
pub proof fn lemma_split_sep_concat(p: Seq<u8>, t: Seq<u8>)
    requires
        sep_free(p),
    ensures
        split_parts(p + seq![SEP] + t) == seq![p] + split_parts(t),
    decreases p.len(),
{
    let s = p + seq![SEP] + t;
    if p.len() == 0 {
        assert(s[0] == SEP);
        assert(s.drop_first() =~= t);
        assert(split_parts(s) =~~= seq![p] + split_parts(t));
    } else {
        assert(s[0] == p[0]);
        assert(p[0] != SEP);
        assert(sep_free(p.drop_first()));
        assert(s.drop_first() =~= p.drop_first() + seq![SEP] + t);
        lemma_split_sep_concat(p.drop_first(), t);
        let rest = split_parts(s.drop_first());
        assert(rest == seq![p.drop_first()] + split_parts(t));
        lemma_split_parts_len(t);
        assert(rest[0] == p.drop_first());
        assert(seq![s[0]] + rest[0] =~= p);
        assert(rest.drop_first() =~~= split_parts(t));
        assert(split_parts(s) =~~= seq![p] + split_parts(t));
    }
}

/// Joining separator-free parts and splitting again gives the parts back.
pub proof fn lemma_split_of_join(parts: Seq<Seq<u8>>)
    requires
        parts.len() >= 1,
        forall|i: int| 0 <= i < parts.len() ==> sep_free(#[trigger] parts[i]),
    ensures
        split_parts(join_parts(parts)) == parts,
    decreases parts.len(),
{
    if parts.len() == 1 {
        lemma_split_sep_free(parts[0]);
        assert(split_parts(join_parts(parts)) =~~= parts);
    } else {
        let rest = parts.drop_first();
        assert(forall|i: int| 0 <= i < rest.len() ==> sep_free(#[trigger] rest[i]));
        lemma_split_of_join(rest);
        lemma_split_sep_concat(parts[0], join_parts(rest));
        assert(split_parts(join_parts(parts)) =~~= parts);
    }
}

/// Appending one more part to a join appends a separator and the part.
pub proof fn lemma_join_push(parts: Seq<Seq<u8>>, p: Seq<u8>)
    requires
        parts.len() >= 1,
    ensures
        join_parts(parts.push(p)) == join_parts(parts) + seq![SEP] + p,
    decreases parts.len(),
{
    if parts.len() == 1 {
        assert(parts.push(p).drop_first() =~~= seq![p]);
        assert(join_parts(seq![p]) == p);
        assert(join_parts(parts.push(p)) =~= join_parts(parts) + seq![SEP] + p);
    } else {
        lemma_join_push(parts.drop_first(), p);
        assert(parts.push(p).drop_first() =~~= parts.drop_first().push(p));
        assert(join_parts(parts.push(p)) =~= join_parts(parts) + seq![SEP] + p);
    }
}

/// The parts with the first one extended at the front by `c`.
pub open spec fn prepend_first(c: Seq<u8>, parts: Seq<Seq<u8>>) -> Seq<Seq<u8>>
    recommends
        parts.len() >= 1,
{
    seq![c + parts[0]] + parts.drop_first()
}

/// Splits a byte vector at every separator.
pub fn split_bytes(s: &Vec<u8>) -> (r: Vec<Vec<u8>>)
    ensures
        part_views(r@) == split_parts(s@),
{
    let ghost whole = s@;
    let mut done: Vec<Vec<u8>> = Vec::new();
    let mut cur: Vec<u8> = Vec::new();
    let mut k: usize = 0;
    proof {
        lemma_split_parts_len(whole);
        assert(whole.subrange(0, whole.len() as int) =~= whole);
        assert(part_views(done@) + prepend_first(cur@, split_parts(whole)) =~~= split_parts(
            whole,
        ));
    }
    while k < s.len()
        invariant
            0 <= k <= s.len(),
            whole == s@,
            split_parts(whole) == part_views(done@) + prepend_first(
                cur@,
                split_parts(whole.subrange(k as int, whole.len() as int)),
            ),
        decreases s.len() - k,
    {
        let ghost tail = whole.subrange(k as int, whole.len() as int);
        let ghost tail2 = whole.subrange(k as int + 1, whole.len() as int);
        proof {
            assert(tail.len() == whole.len() - k);
            assert(tail[0] == whole[k as int]);
            assert(tail.drop_first() =~= tail2);
            lemma_split_parts_len(tail2);
        }
        let b = s[k];
        if b == SEP {
            let ghost dv0 = part_views(done@);
            let ghost c0 = cur@;
            done.push(cur);
            cur = Vec::new();
            proof {
                assert(part_views(done@) =~~= dv0.push(c0));
                assert(split_parts(tail) == seq![Seq::<u8>::empty()] + split_parts(tail2));
                assert(prepend_first(c0, split_parts(tail)) =~~= seq![c0] + split_parts(tail2));
                assert(prepend_first(cur@, split_parts(tail2)) =~~= split_parts(tail2));
                assert(dv0.push(c0) + split_parts(tail2) =~~= dv0 + (seq![c0] + split_parts(
                    tail2,
                )));
                assert(part_views(done@) + prepend_first(cur@, split_parts(tail2))
                    =~~= split_parts(whole));
            }
        } else {
            let ghost c0 = cur@;
            cur.push(b);
            proof {
                let rest = split_parts(tail2);
                assert(split_parts(tail) == seq![seq![tail[0]] + rest[0]] + rest.drop_first());
                assert(c0 + (seq![b] + rest[0]) =~= c0.push(b) + rest[0]);
                assert(prepend_first(c0, split_parts(tail)) =~~= prepend_first(cur@, rest));
                assert(part_views(done@) + prepend_first(cur@, split_parts(tail2))
                    =~~= split_parts(whole));
            }
        }
        k = k + 1;
    }
    proof {
        let tail = whole.subrange(whole.len() as int, whole.len() as int);
        assert(tail =~= Seq::<u8>::empty());
        assert(split_parts(tail) == seq![Seq::<u8>::empty()]);
        assert(prepend_first(cur@, split_parts(tail)) =~~= seq![cur@]);
    }
    let ghost dv0 = part_views(done@);
    let ghost c0 = cur@;
    done.push(cur);
    proof {
        assert(part_views(done@) =~~= dv0.push(c0));
        assert(dv0.push(c0) =~~= dv0 + seq![c0]);
        assert(part_views(done@) =~~= split_parts(whole));
    }
    done
}

/// Joins byte vectors with one separator between consecutive parts.
pub fn join_bytes(parts: &Vec<Vec<u8>>) -> (r: Vec<u8>)
    requires
        parts.len() >= 1,
    ensures
        r@ == join_parts(part_views(parts@)),
{
    let mut r: Vec<u8> = Vec::new();
    let mut i: usize = 0;
    while i < parts.len()
        invariant
            0 <= i <= parts.len(),
            parts.len() >= 1,
            i == 0 ==> r@ == Seq::<u8>::empty(),
            i >= 1 ==> r@ == join_parts(part_views(parts@).take(i as int)),
        decreases parts.len() - i,
    {
        if i > 0 {
            r.push(SEP);
        }
        let part = &parts[i];
        let mut j: usize = 0;
        let ghost mid = r@;
        while j < part.len()
            invariant
                0 <= j <= part.len(),
                r@ == mid + part@.take(j as int),
            decreases part.len() - j,
        {
            let ghost before = r@;
            r.push(part[j]);
            proof {
                assert(before + seq![part@[j as int]] =~= mid + part@.take(j as int + 1));
            }
            j = j + 1;
        }
        proof {
            assert(part@.take(part@.len() as int) =~= part@);
            let taken = part_views(parts@).take(i as int);
            let taken2 = part_views(parts@).take(i as int + 1);
            if i == 0 {
                assert(taken2 =~~= seq![part_views(parts@)[0]]);
                assert(join_parts(taken2) == part_views(parts@)[0]);
                assert(r@ =~= part_views(parts@)[0]);
            } else {
                lemma_join_push(taken, part_views(parts@)[i as int]);
                assert(taken.push(part_views(parts@)[i as int]) =~~= taken2);
                assert(r@ =~= join_parts(taken2));
            }
        }
        i = i + 1;
    }
    proof {
        assert(part_views(parts@).take(parts.len() as int) =~~= part_views(parts@));
    }
    r
}

} // verus!
