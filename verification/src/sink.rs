//! What is handed to the sink: colours in the order of the LEDs.

use crate::color::ColorSample;
use vstd::prelude::*;

verus! {

/// The lists of colours one after the other, in the order of the lists.
pub open spec fn joined(lists: Seq<Vec<ColorSample>>) -> Seq<ColorSample>
    decreases lists.len(),
{
    if lists.len() == 0 {
        Seq::empty()
    } else {
        joined(lists.drop_last()) + lists.last()@
    }
}

/// The colours of all capture sources as one list: source after source, and
/// within a source in the order of its rectangles.
pub fn concat_colors(per_source: &Vec<Vec<ColorSample>>) -> (r: Vec<ColorSample>)
    ensures
        r@ == joined(per_source@),
{
    let mut all: Vec<ColorSample> = Vec::new();
    let mut i: usize = 0;
    while i < per_source.len()
        invariant
            0 <= i <= per_source@.len(),
            all@ == joined(per_source@.take(i as int)),
        decreases per_source@.len() - i,
    {
        let colors = &per_source[i];
        let ghost before = all@;
        let mut j: usize = 0;
        while j < colors.len()
            invariant
                0 <= j <= colors@.len(),
                all@ == before + colors@.take(j as int),
            decreases colors@.len() - j,
        {
            all.push(colors[j]);
            proof {
                assert(colors@.take(j + 1) == colors@.take(j as int).push(colors@[j as int]));
            }
            j = j + 1;
        }
        proof {
            assert(colors@.take(colors@.len() as int) == colors@);
            assert(per_source@.take(i + 1).drop_last() == per_source@.take(i as int));
            assert(per_source@.take(i + 1).last() == per_source@[i as int]);
        }
        i = i + 1;
    }
    proof {
        assert(per_source@.take(per_source@.len() as int) == per_source@);
    }
    all
}

/// The colours behind one leading entry, for a sink whose zones start with an
/// entry that stands for no LED.
pub fn with_placeholder(placeholder: ColorSample, colors: &Vec<ColorSample>) -> (r: Vec<
    ColorSample,
>)
    ensures
        r@ == seq![placeholder] + colors@,
{
    let mut all: Vec<ColorSample> = Vec::new();
    all.push(placeholder);
    let mut j: usize = 0;
    while j < colors.len()
        invariant
            0 <= j <= colors@.len(),
            all@ == seq![placeholder] + colors@.take(j as int),
        decreases colors@.len() - j,
    {
        all.push(colors[j]);
        proof {
            assert(colors@.take(j + 1) == colors@.take(j as int).push(colors@[j as int]));
        }
        j = j + 1;
    }
    proof {
        assert(colors@.take(colors@.len() as int) == colors@);
    }
    all
}

/// Number of colours in all the lists.
pub open spec fn total_len(lists: Seq<Vec<ColorSample>>) -> nat
    decreases lists.len(),
{
    if lists.len() == 0 {
        0
    } else {
        total_len(lists.drop_last()) + lists.last()@.len()
    }
}

/// Colour `k` of list `s` stands in the joined list behind all the colours of
/// the lists before `s`.
pub proof fn lemma_joined_index(lists: Seq<Vec<ColorSample>>, s: int, k: int)
    requires
        0 <= s < lists.len(),
        0 <= k < lists[s]@.len(),
    ensures
        joined(lists).len() == total_len(lists),
        total_len(lists.take(s)) + k < joined(lists).len(),
        joined(lists)[total_len(lists.take(s)) + k] == lists[s]@[k],
    decreases lists.len(),
{
    let front = lists.drop_last();
    lemma_joined_len(front);
    if s == lists.len() - 1 {
        assert(lists.take(s) == front);
    } else {
        lemma_joined_index(front, s, k);
        assert(front.take(s) == lists.take(s));
    }
}

/// Joining keeps every colour: the result is as long as the lists together.
pub proof fn lemma_joined_len(lists: Seq<Vec<ColorSample>>)
    ensures
        joined(lists).len() == total_len(lists),
    decreases lists.len(),
{
    if lists.len() > 0 {
        lemma_joined_len(lists.drop_last());
    }
}

} // verus!
