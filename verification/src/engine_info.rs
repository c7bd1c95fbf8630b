//! What the engine says about itself.
use vstd::prelude::*;
use crate::text::{chars_of, string_from_chars};

verus! {

/// Name, version, first author and license of the engine.
#[derive(Debug, Clone)]
pub struct MimiEngineInfo {
    pub name: String,
    pub version: String,
    pub author: String,
    pub license: String,
}

/// The text before the first comma (all of it without one).
pub open spec fn before_comma(s: Seq<char>) -> Seq<char>
    decreases s.len(),
{
    if s.len() == 0 || s[0] == ',' {
        Seq::empty()
    } else {
        seq![s[0]] + before_comma(s.drop_first())
    }
}

proof fn lemma_before_comma_at(s: Seq<char>, k: int)
    requires
        0 <= k <= s.len(),
        forall|j: int| 0 <= j < k ==> s[j] != ',',
        k == s.len() || s[k] == ',',
    ensures
        before_comma(s) == s.take(k),
    decreases k,
{
    if k > 0 {
        lemma_before_comma_at(s.drop_first(), k - 1);
        assert(s.take(k) =~= seq![s[0]] + s.drop_first().take(k - 1));
    } else {
        assert(s.take(0) =~= Seq::<char>::empty());
    }
}

/// The engine's description from its package data: the version, the
/// comma-separated authors (the first one is named) and the license.
pub fn get_engine_info(version: &str, authors: &str, license: &str) -> (r: MimiEngineInfo)
    ensures
        r.name@ == "MimiEngine"@,
        r.version@ == version@,
        r.author@ == before_comma(authors@),
        r.license@ == license@,
{
    let chars = chars_of(authors);
    let n = chars.len();
    let mut k: usize = 0;
    while k < n && chars[k] != ','
        invariant
            0 <= k <= n,
            n == chars@.len(),
            chars@ == authors@,
            forall|j: int| 0 <= j < k ==> chars@[j] != ',',
        decreases n - k,
    {
        k = k + 1;
    }
    proof {
        lemma_before_comma_at(authors@, k as int);
    }
    let first = string_from_chars(&chars.as_slice()[0..k]);
    assert(chars@.subrange(0, k as int) =~= authors@.take(k as int));
    MimiEngineInfo {
        name: "MimiEngine".to_owned(),
        version: version.to_owned(),
        author: first,
        license: license.to_owned(),
    }
}

} // verus!
