//! The order in which translation models are offered.
use vstd::prelude::*;

verus! {

/// The translation models that can be loaded, in the order they are declared.
#[derive(Clone, Copy, PartialEq, Eq, Structural, Debug)]
pub enum ModelId {
    VntlLlama3_8Bv2,
    Lfm2_350mEnjpMt,
    SakuraGalTransl7Bv3_7,
    Sakura1_5bQwen2_5v1_0,
    HunyuanMT7B,
}

pub open spec fn all_models() -> Seq<ModelId> {
    seq![
        ModelId::VntlLlama3_8Bv2,
        ModelId::Lfm2_350mEnjpMt,
        ModelId::SakuraGalTransl7Bv3_7,
        ModelId::Sakura1_5bQwen2_5v1_0,
        ModelId::HunyuanMT7B,
    ]
}

/// The place of a model in declaration order.
pub open spec fn position(m: ModelId) -> nat {
    match m {
        ModelId::VntlLlama3_8Bv2 => 0,
        ModelId::Lfm2_350mEnjpMt => 1,
        ModelId::SakuraGalTransl7Bv3_7 => 2,
        ModelId::Sakura1_5bQwen2_5v1_0 => 3,
        ModelId::HunyuanMT7B => 4,
    }
}

pub open spec fn starts_with(s: Seq<char>, prefix: Seq<char>) -> bool {
    prefix.len() <= s.len() && s.subrange(0, prefix.len() as int) == prefix
}

/// How strongly a model is preferred: smaller first. Small models gain on a CPU, the models
/// tuned for Chinese gain under a Chinese locale, and the multilingual one gains under a
/// locale that is neither Chinese nor English.
pub open spec fn priority(m: ModelId, is_cpu: bool, locale: Seq<char>) -> int {
    let cpu: int = if is_cpu {
        10
    } else {
        1
    };
    let zh: int = if starts_with(locale, seq!['z', 'h']) {
        10
    } else {
        1
    };
    let elsewhere: int = if starts_with(locale, seq!['z', 'h']) || starts_with(locale, seq!['e', 'n']) {
        1
    } else {
        100
    };
    match m {
        ModelId::VntlLlama3_8Bv2 => 100int,
        ModelId::Lfm2_350mEnjpMt => 200int / cpu,
        ModelId::SakuraGalTransl7Bv3_7 => 300int / zh,
        ModelId::Sakura1_5bQwen2_5v1_0 => 400int / zh / cpu,
        ModelId::HunyuanMT7B => 500int / elsewhere,
    }
}

/// `a` comes no later than `b`: by priority, and by declaration order among equals.
pub open spec fn ranks_before(a: ModelId, b: ModelId, is_cpu: bool, locale: Seq<char>) -> bool {
    priority(a, is_cpu, locale) < priority(b, is_cpu, locale) || (priority(a, is_cpu, locale) == priority(
        b,
        is_cpu,
        locale,
    ) && position(a) <= position(b))
}

pub open spec fn pair_le(a: (u32, usize), b: (u32, usize)) -> bool {
    a.0 < b.0 || (a.0 == b.0 && a.1 <= b.1)
}

/// Relies on `slice::sort`: the pairs in ascending order of `Ord` for tuples, which compares
/// the first elements and then the second.
#[verifier::external_body]
fn sort_pairs(v: &mut Vec<(u32, usize)>)
    ensures
        final(v)@.to_multiset() == old(v)@.to_multiset(),
        forall|i: int, j: int| 0 <= i < j < final(v)@.len() ==> pair_le(final(v)@[i], final(v)@[j]),
{
    v.sort();
}

fn model_at(k: usize) -> (m: ModelId)
    requires
        k < 5,
    ensures
        m == all_models()[k as int],
{
    if k == 0 {
        ModelId::VntlLlama3_8Bv2
    } else if k == 1 {
        ModelId::Lfm2_350mEnjpMt
    } else if k == 2 {
        ModelId::SakuraGalTransl7Bv3_7
    } else if k == 3 {
        ModelId::Sakura1_5bQwen2_5v1_0
    } else {
        ModelId::HunyuanMT7B
    }
}

fn chars_of(text: &str) -> (r: Vec<char>)
    ensures
        r@ == text@,
{
    let mut out: Vec<char> = Vec::new();
    let ghost chars = text@;
    for c in it: text.chars()
        invariant
            it.seq() == chars,
            chars == text@,
            out@ == chars.take(it.index() as int),
    {
        out.push(c);
        assert(out@ =~= chars.take(it.index() + 1));
    }
    assert(out@ =~= chars);
    out
}

fn locale_starts_with(locale: &Vec<char>, a: char, b: char) -> (r: bool)
    ensures
        r == starts_with(locale@, seq![a, b]),
{
    let r = locale.len() >= 2 && locale[0] == a && locale[1] == b;
    proof {
        if locale@.len() >= 2 {
            assert(r == (locale@.subrange(0, 2) =~= seq![a, b]));
        }
    }
    r
}

/// The priority of one model for this machine and locale.
pub fn model_priority(model: ModelId, is_cpu: bool, locale: &str) -> (p: u32)
    ensures
        p == priority(model, is_cpu, locale@),
{
    let chars = chars_of(locale);
    let cpu: u32 = if is_cpu {
        10
    } else {
        1
    };
    let is_zh = locale_starts_with(&chars, 'z', 'h');
    let zh: u32 = if is_zh {
        10
    } else {
        1
    };
    let elsewhere: u32 = if is_zh || locale_starts_with(&chars, 'e', 'n') {
        1
    } else {
        100
    };
    match model {
        ModelId::VntlLlama3_8Bv2 => 100,
        ModelId::Lfm2_350mEnjpMt => 200 / cpu,
        ModelId::SakuraGalTransl7Bv3_7 => 300 / zh,
        ModelId::Sakura1_5bQwen2_5v1_0 => 400 / zh / cpu,
        ModelId::HunyuanMT7B => 500 / elsewhere,
    }
}

/// Every model once, the preferred first (see [`priority`]); models of equal priority keep
/// their declaration order.
pub fn llm_list(is_cpu: bool, locale: &str) -> (r: Vec<ModelId>)
    ensures
        r@.len() == 5,
        forall|k: int| 0 <= k < 5 ==> r@.contains(#[trigger] all_models()[k]),
        forall|i: int, j: int| 0 <= i < j < 5 ==> ranks_before(r@[i], r@[j], is_cpu, locale@),
{
    broadcast use vstd::seq_lib::group_to_multiset_ensures;

    let mut keys: Vec<(u32, usize)> = Vec::new();
    let mut k: usize = 0;
    while k < 5
        invariant
            k <= 5,
            keys@.len() == k,
            forall|j: int|
                0 <= j < k ==> #[trigger] keys@[j] == (priority(all_models()[j], is_cpu, locale@) as u32, j as usize),
            forall|j: int| 0 <= j < k ==> 0 <= priority(#[trigger] all_models()[j], is_cpu, locale@) <= 500,
        decreases 5 - k,
    {
        let m = model_at(k);
        keys.push((model_priority(m, is_cpu, locale), k));
        k = k + 1;
    }
    let ghost base = keys@;
    sort_pairs(&mut keys);
    proof {
        assert(keys@.len() == keys@.to_multiset().len());
        assert(base.len() == base.to_multiset().len());
        assert(keys@.len() == 5);
        assert forall|i: int| 0 <= i < 5 implies base.contains(#[trigger] keys@[i]) by {
            assert(keys@.contains(keys@[i]));
            assert(keys@.to_multiset().count(keys@[i]) > 0);
            assert(base.to_multiset().count(keys@[i]) > 0);
        }
        assert forall|j: int| 0 <= j < 5 implies keys@.contains(#[trigger] base[j]) by {
            assert(base.contains(base[j]));
            assert(base.to_multiset().count(base[j]) > 0);
            assert(keys@.to_multiset().count(base[j]) > 0);
        }
    }
    let mut out: Vec<ModelId> = Vec::new();
    let mut i: usize = 0;
    while i < 5
        invariant
            i <= 5,
            keys@.len() == 5,
            base.len() == 5,
            forall|j: int|
                0 <= j < 5 ==> #[trigger] base[j] == (priority(all_models()[j], is_cpu, locale@) as u32, j as usize),
            forall|j: int| 0 <= j < 5 ==> 0 <= priority(#[trigger] all_models()[j], is_cpu, locale@) <= 500,
            forall|j: int| 0 <= j < 5 ==> base.contains(#[trigger] keys@[j]),
            out@.len() == i,
            forall|j: int| 0 <= j < i ==> #[trigger] out@[j] == all_models()[keys@[j].1 as int],
        decreases 5 - i,
    {
        let ghost w = choose|w: int| 0 <= w < 5 && base[w] == keys@[i as int];
        assert(base[w] == keys@[i as int]);
        out.push(model_at(keys[i].1));
        i = i + 1;
    }
    proof {
        assert forall|k: int| 0 <= k < 5 implies out@.contains(#[trigger] all_models()[k]) by {
            let j = choose|j: int| 0 <= j < 5 && keys@[j] == base[k];
            assert(out@[j] == all_models()[k]);
        }
        assert forall|a: int, b: int| 0 <= a < b < 5 implies ranks_before(out@[a], out@[b], is_cpu, locale@) by {
            let wa = choose|w: int| 0 <= w < 5 && base[w] == keys@[a];
            let wb = choose|w: int| 0 <= w < 5 && base[w] == keys@[b];
            assert(pair_le(keys@[a], keys@[b]));
            assert(out@[a] == all_models()[wa]);
            assert(out@[b] == all_models()[wb]);
        }
    }
    out
}

} // verus!
