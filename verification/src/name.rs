//! The name under which a demo is stored: the last segment of its URL.

use vstd::prelude::*;

verus! {

/// Where the last segment of `url` begins: just behind its last `/`, or at 0
/// where it holds none.
pub open spec fn segment_start(url: Seq<char>) -> int
    decreases url.len(),
{
    if url.len() == 0 {
        0
    } else if url.last() == '/' {
        url.len() as int
    } else {
        segment_start(url.drop_last())
    }
}

/// The last segment of `url`: what follows its last `/`, or all of it where
/// it holds none.
pub open spec fn last_segment(url: Seq<char>) -> Seq<char> {
    url.subrange(segment_start(url), url.len() as int)
}

/// Whether `text` holds no `/`.
pub open spec fn slash_free(text: Seq<char>) -> bool {
    forall|i: int| 0 <= i < text.len() ==> text[i] != '/'
}

/// The start of the last segment lies within the text, a `/` stands just
/// before it unless it is 0, and no `/` follows it.
pub proof fn lemma_segment_start(url: Seq<char>)
    ensures
        0 <= segment_start(url) <= url.len(),
        segment_start(url) > 0 ==> url[segment_start(url) - 1] == '/',
        forall|i: int| segment_start(url) <= i < url.len() ==> url[i] != '/',
    decreases url.len(),
{
    if url.len() > 0 && url.last() != '/' {
        let front = url.drop_last();
        lemma_segment_start(front);
        assert forall|i: int| segment_start(url) <= i < url.len() implies url[i] != '/' by {
            if i < front.len() {
                assert(front[i] == url[i]);
            }
        }
    }
}

/// The name of the demo that `url` points at.
pub fn name_of(url: &str) -> (name: String)
    ensures
        name@ == last_segment(url@),
{
    let len = url.unicode_len();
    let mut start: usize = 0;
    let mut i: usize = 0;
    while i < len
        invariant
            len == url@.len(),
            i <= len,
            start == segment_start(url@.take(i as int)),
        decreases len - i,
    {
        let c = url.get_char(i);
        proof {
            let next = url@.take(i + 1);
            assert(next.drop_last() =~= url@.take(i as int));
            assert(next.last() == c);
        }
        if c == '/' {
            start = i + 1;
        }
        i += 1;
    }
    proof {
        assert(url@.take(len as int) =~= url@);
        lemma_segment_start(url@);
    }
    url.substring_char(start, len).to_owned()
}

} // verus!
