//! Small verified text helpers: string equality over character views, and
//! the test that a sniffed MIME type names an image.

use vstd::prelude::*;

verus! {

/// Whether a MIME type's top-level media type is `image`: the text up to the
/// first `/` (or the whole text when there is none) equals `image`.
pub open spec fn is_image_mime(m: Seq<char>) -> bool {
    &&& m.len() >= 5
    &&& m.subrange(0, 5) == "image"@
    &&& (m.len() == 5 || m[5] == '/')
}

/// Character-by-character string equality, decided over the views.
pub fn str_eq(a: &str, b: &str) -> (r: bool)
    ensures
        r == (a@ == b@),
{
    let la = a.unicode_len();
    let lb = b.unicode_len();
    if la != lb {
        return false;
    }
    let mut i: usize = 0;
    while i < la
        invariant
            i <= la,
            la == a@.len(),
            lb == b@.len(),
            la == lb,
            forall|k: int| 0 <= k < i ==> a@[k] == b@[k],
        decreases la - i,
    {
        if a.get_char(i) != b.get_char(i) {
            return false;
        }
        i += 1;
    }
    proof {
        assert(a@ =~= b@);
    }
    true
}

/// Decide [`is_image_mime`] for a sniffed MIME type.
pub fn mime_is_image(mime: &str) -> (r: bool)
    ensures
        r == is_image_mime(mime@),
{
    proof {
        reveal_strlit("image");
    }
    let len = mime.unicode_len();
    if len < 5 {
        return false;
    }
    if mime.get_char(0) != 'i' || mime.get_char(1) != 'm' || mime.get_char(2) != 'a'
        || mime.get_char(3) != 'g' || mime.get_char(4) != 'e' {
        proof {
            assert(mime@.subrange(0, 5) != "image"@) by {
                if mime@.subrange(0, 5) == "image"@ {
                    assert(mime@.subrange(0, 5)[0] == mime@[0]);
                    assert(mime@.subrange(0, 5)[1] == mime@[1]);
                    assert(mime@.subrange(0, 5)[2] == mime@[2]);
                    assert(mime@.subrange(0, 5)[3] == mime@[3]);
                    assert(mime@.subrange(0, 5)[4] == mime@[4]);
                }
            }
        }
        return false;
    }
    proof {
        assert(mime@.subrange(0, 5) =~= "image"@);
    }
    if len == 5 {
        return true;
    }
    if mime.get_char(5) == '/' {
        true
    } else {
        false
    }
}

} // verus!
