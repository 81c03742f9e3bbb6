//! Pages of a listing: how long they are, and which keys they hold where
//! the keys are texts.
//!
//! Texts are ordered as their UTF-8 encodings are, byte by byte, which is the
//! order of their code points.

use vstd::prelude::*;
use vstd::string::*;

verus! {

/// The length of a page where none is asked for.
pub const DEFAULT_LIMIT: u32 = 10;

/// The greatest length of a page.
pub const MAX_LIMIT: u32 = 100;

/// The length of a page: what is asked for, or the default, and never more
/// than the greatest length.
pub open spec fn spec_page_limit(limit: Option<u32>) -> nat {
    let wanted = match limit {
        Some(n) => n,
        None => DEFAULT_LIMIT,
    };
    if wanted <= MAX_LIMIT {
        wanted as nat
    } else {
        MAX_LIMIT as nat
    }
}

/// The length of a page.
pub fn page_limit(limit: Option<u32>) -> (r: usize)
    ensures
        r == spec_page_limit(limit),
{
    let wanted = match limit {
        Some(n) => n,
        None => DEFAULT_LIMIT,
    };
    if wanted <= MAX_LIMIT {
        wanted as usize
    } else {
        MAX_LIMIT as usize
    }
}

/// Whether `a` and `b` agree before place `k`, where `a` ends while `b`
/// goes on, or holds the smaller code point.
pub open spec fn differs_at(a: Seq<char>, b: Seq<char>, k: int) -> bool {
    &&& 0 <= k <= a.len()
    &&& k < b.len()
    &&& forall|i: int| 0 <= i < k ==> a[i] as u32 == b[i] as u32
    &&& (k == a.len() || (a[k] as u32) < (b[k] as u32))
}

/// Whether `a` comes before `b`.
pub open spec fn text_lt(a: Seq<char>, b: Seq<char>) -> bool {
    exists|k: int| differs_at(a, b, k)
}

/// No text comes before itself.
pub proof fn lemma_text_lt_irreflexive(a: Seq<char>)
    ensures
        !text_lt(a, a),
{
    if text_lt(a, a) {
        let k = choose|k: int| differs_at(a, a, k);
        assert(differs_at(a, a, k));
    }
}

/// What comes before a text comes before all that the text comes before.
pub proof fn lemma_text_lt_transitive(a: Seq<char>, b: Seq<char>, c: Seq<char>)
    requires
        text_lt(a, b),
        text_lt(b, c),
    ensures
        text_lt(a, c),
{
    let k1 = choose|k: int| differs_at(a, b, k);
    let k2 = choose|k: int| differs_at(b, c, k);
    assert(differs_at(a, b, k1));
    assert(differs_at(b, c, k2));
    let k = if k1 <= k2 {
        k1
    } else {
        k2
    };
    assert(differs_at(a, c, k));
}

/// Whether `a` comes before `b`.
pub fn text_before(a: &str, b: &str) -> (r: bool)
    ensures
        r == text_lt(a@, b@),
{
    let la = a.unicode_len();
    let lb = b.unicode_len();
    let mut i: usize = 0;
    while i < la && i < lb
        invariant
            la == a@.len(),
            lb == b@.len(),
            i <= la,
            i <= lb,
            forall|m: int| 0 <= m < i ==> a@[m] as u32 == b@[m] as u32,
        decreases la - i,
    {
        let ca = a.get_char(i) as u32;
        let cb = b.get_char(i) as u32;
        if ca != cb {
            proof {
                if ca < cb {
                    assert(differs_at(a@, b@, i as int));
                } else if text_lt(a@, b@) {
                    let k = choose|k: int| differs_at(a@, b@, k);
                    assert(differs_at(a@, b@, k));
                    if k > i {
                        assert(a@[i as int] as u32 == b@[i as int] as u32);
                    }
                }
            }
            return ca < cb;
        }
        i += 1;
    }
    proof {
        if la < lb {
            assert(differs_at(a@, b@, la as int));
        } else if text_lt(a@, b@) {
            let k = choose|k: int| differs_at(a@, b@, k);
            assert(differs_at(a@, b@, k));
        }
    }
    la < lb
}

/// The key that the entry at place `m` of a page must lie beyond: the key
/// of the entry before it, or what the listing starts after.
pub open spec fn cursor_before(
    keys: Seq<String>,
    start_after: Option<String>,
    page: Seq<usize>,
    m: int,
) -> Option<Seq<char>> {
    if m == 0 {
        match start_after {
            Some(s) => Some(s@),
            None => None,
        }
    } else {
        Some(keys[page[m - 1] as int]@)
    }
}

/// Whether the entry at place `j` is chosen and its key lies beyond the
/// cursor.
pub open spec fn is_candidate(
    keys: Seq<String>,
    chosen: Seq<bool>,
    cursor: Option<Seq<char>>,
    j: int,
) -> bool {
    &&& 0 <= j < keys.len()
    &&& chosen[j]
    &&& (cursor matches Some(c) ==> text_lt(c, keys[j]@))
}

/// Whether `page` holds the places of the first `limit` chosen entries
/// beyond `start_after`, in ascending order of key: every entry of the page
/// is a chosen one beyond the entry before it, no chosen entry beyond the
/// entry before it comes before it, and a page that is not full leaves no
/// chosen entry beyond its last.
pub open spec fn is_page(
    keys: Seq<String>,
    chosen: Seq<bool>,
    start_after: Option<String>,
    limit: nat,
    page: Seq<usize>,
) -> bool {
    &&& page.len() <= limit
    &&& forall|m: int|
        0 <= m < page.len() ==> is_candidate(
            keys,
            chosen,
            cursor_before(keys, start_after, page, m),
            (#[trigger] page[m]) as int,
        )
    &&& forall|m: int, j: int|
        0 <= m < page.len() && #[trigger] is_candidate(
            keys,
            chosen,
            cursor_before(keys, start_after, page, m),
            j,
        ) ==> !text_lt(keys[j]@, keys[page[m] as int]@)
    &&& page.len() < limit ==> forall|j: int|
        !#[trigger] is_candidate(
            keys,
            chosen,
            cursor_before(keys, start_after, page, page.len() as int),
            j,
        )
}

/// Whether the key at place `j` lies beyond the last entry of the page, or
/// beyond what the listing starts after where the page is empty.
fn beyond(keys: &Vec<String>, start_after: &Option<String>, page: &Vec<usize>, j: usize) -> (r:
    bool)
    requires
        j < keys@.len(),
        forall|m: int| 0 <= m < page@.len() ==> (#[trigger] page@[m]) < keys@.len(),
    ensures
        r == (cursor_before(keys@, *start_after, page@, page@.len() as int) matches Some(c)
            ==> text_lt(c, keys@[j as int]@)),
{
    if page.len() == 0 {
        match start_after {
            Some(s) => text_before(s.as_str(), keys[j].as_str()),
            None => true,
        }
    } else {
        let last = page[page.len() - 1];
        text_before(keys[last].as_str(), keys[j].as_str())
    }
}

/// The places of the first `limit` chosen entries beyond `start_after`, in
/// ascending order of key.
pub fn page_of(
    keys: &Vec<String>,
    chosen: &Vec<bool>,
    start_after: &Option<String>,
    limit: usize,
) -> (page: Vec<usize>)
    requires
        keys@.len() == chosen@.len(),
    ensures
        is_page(keys@, chosen@, *start_after, limit as nat, page@),
{
    let mut page: Vec<usize> = Vec::new();
    let mut done = false;
    while page.len() < limit && !done
        invariant
            keys@.len() == chosen@.len(),
            page@.len() <= limit,
            forall|m: int|
                0 <= m < page@.len() ==> is_candidate(
                    keys@,
                    chosen@,
                    cursor_before(keys@, *start_after, page@, m),
                    (#[trigger] page@[m]) as int,
                ),
            forall|m: int, j: int|
                0 <= m < page@.len() && #[trigger] is_candidate(
                    keys@,
                    chosen@,
                    cursor_before(keys@, *start_after, page@, m),
                    j,
                ) ==> !text_lt(keys@[j]@, keys@[page@[m] as int]@),
            done ==> forall|j: int|
                !#[trigger] is_candidate(
                    keys@,
                    chosen@,
                    cursor_before(keys@, *start_after, page@, page@.len() as int),
                    j,
                ),
        decreases limit - page@.len() + (if done {
            0int
        } else {
            1
        }),
    {
        let ghost cursor = cursor_before(keys@, *start_after, page@, page@.len() as int);
        let mut best: Option<usize> = None;
        let mut j: usize = 0;
        while j < keys.len()
            invariant
                keys@.len() == chosen@.len(),
                j <= keys@.len(),
                cursor == cursor_before(keys@, *start_after, page@, page@.len() as int),
                forall|m: int| 0 <= m < page@.len() ==> (#[trigger] page@[m]) < keys@.len(),
                best matches Some(b) ==> is_candidate(keys@, chosen@, cursor, b as int),
                forall|i: int|
                    0 <= i < j && #[trigger] is_candidate(keys@, chosen@, cursor, i) ==> best
                        is Some && !text_lt(keys@[i]@, keys@[best->Some_0 as int]@),
            decreases keys@.len() - j,
        {
            if chosen[j] && beyond(keys, start_after, &page, j) {
                match best {
                    None => {
                        proof {
                            lemma_text_lt_irreflexive(keys@[j as int]@);
                        }
                        best = Some(j);
                    },
                    Some(b) => {
                        if text_before(keys[j].as_str(), keys[b].as_str()) {
                            proof {
                                lemma_text_lt_irreflexive(keys@[j as int]@);
                                assert forall|i: int|
                                    0 <= i < j && #[trigger] is_candidate(
                                        keys@,
                                        chosen@,
                                        cursor,
                                        i,
                                    ) implies !text_lt(keys@[i]@, keys@[j as int]@) by {
                                    if text_lt(keys@[i]@, keys@[j as int]@) {
                                        lemma_text_lt_transitive(
                                            keys@[i]@,
                                            keys@[j as int]@,
                                            keys@[b as int]@,
                                        );
                                    }
                                }
                            }
                            best = Some(j);
                        }
                    },
                }
            }
            j += 1;
        }
        let ghost before = page@;
        match best {
            Some(b) => {
                page.push(b);
                proof {
                    assert forall|m: int| 0 <= m < page@.len() implies cursor_before(
                        keys@,
                        *start_after,
                        page@,
                        m,
                    ) == cursor_before(keys@, *start_after, before, m) by {
                        if m > 0 {
                            assert(page@[m - 1] == before[m - 1]);
                        }
                    }
                    assert forall|m: int| 0 <= m < page@.len() implies is_candidate(
                        keys@,
                        chosen@,
                        cursor_before(keys@, *start_after, page@, m),
                        (#[trigger] page@[m]) as int,
                    ) by {
                        if m < before.len() {
                            assert(page@[m] == before[m]);
                        }
                    }
                    assert forall|m: int, j: int|
                        0 <= m < page@.len() && #[trigger] is_candidate(
                            keys@,
                            chosen@,
                            cursor_before(keys@, *start_after, page@, m),
                            j,
                        ) implies !text_lt(keys@[j]@, keys@[page@[m] as int]@) by {
                        if m < before.len() {
                            assert(page@[m] == before[m]);
                            assert(is_candidate(
                                keys@,
                                chosen@,
                                cursor_before(keys@, *start_after, before, m),
                                j,
                            ));
                        }
                    }
                }
            },
            None => {
                done = true;
            },
        }
    }
    page
}

} // verus!
