//! Asset identity: the file name under which a crawled URL's token stream
//! is persisted. The name is a pure function of the URL: a leading
//! `http://` or `https://` scheme prefix is stripped, every `/` becomes
//! `_`, and the result is framed as `assets/<name>.txt`. Presence of that
//! file is the sole completion marker for the URL.
//!
//! Known collision policy: two URLs that differ only in their scheme
//! (`http://a/b` and `https://a/b`) map to the same asset name; the later
//! of the two is treated as already processed.

use vstd::prelude::*;

use crate::strutil::push_char;
use crate::strutil::str_eq;

verus! {

/// One unit of crawl work, as the entry store hands it out.
pub struct Record {
    pub url: String,
    pub id: String,
}

/// The URL with one leading scheme prefix removed, if it carries one.
pub open spec fn scheme_stripped(u: Seq<char>) -> Seq<char> {
    if u.len() >= 7 && u.subrange(0, 7) == "http://"@ {
        u.subrange(7, u.len() as int)
    } else if u.len() >= 8 && u.subrange(0, 8) == "https://"@ {
        u.subrange(8, u.len() as int)
    } else {
        u
    }
}

/// Every path separator replaced by an underscore.
pub open spec fn slashes_replaced(u: Seq<char>) -> Seq<char> {
    Seq::new(u.len(), |i: int| if u[i] == '/' { '_' } else { u[i] })
}

/// The asset file name derived from a URL.
pub open spec fn asset_name_spec(u: Seq<char>) -> Seq<char> {
    "assets/"@ + slashes_replaced(scheme_stripped(u)) + ".txt"@
}

impl Record {
    /// Derives the deterministic asset file name for this record's URL.
    pub fn asset_file_name(&self) -> (r: String)
        ensures
            r@ == asset_name_spec(self.url@),
    {
        let url: &str = self.url.as_str();
        let len = url.unicode_len();
        let stripped: &str = if len >= 7 && str_eq(url.substring_char(0, 7), "http://") {
            url.substring_char(7, len)
        } else if len >= 8 && str_eq(url.substring_char(0, 8), "https://") {
            url.substring_char(8, len)
        } else {
            url
        };
        proof {
            assert(stripped@ == scheme_stripped(self.url@));
        }
        let mut out = String::from_str("assets/");
        let slen = stripped.unicode_len();
        let mut i: usize = 0;
        while i < slen
            invariant
                i <= slen,
                slen == stripped@.len(),
                out@ == "assets/"@ + slashes_replaced(stripped@).subrange(0, i as int),
            decreases slen - i,
        {
            let c = stripped.get_char(i);
            if c == '/' {
                push_char(&mut out, '_');
            } else {
                push_char(&mut out, c);
            }
            proof {
                assert(slashes_replaced(stripped@).subrange(0, i + 1) =~= slashes_replaced(
                    stripped@,
                ).subrange(0, i as int).push(slashes_replaced(stripped@)[i as int]));
                assert(out@ =~= "assets/"@ + slashes_replaced(stripped@).subrange(0, i + 1));
            }
            i += 1;
        }
        proof {
            assert(slashes_replaced(stripped@).subrange(0, slen as int) =~= slashes_replaced(
                stripped@,
            ));
        }
        let r = out.concat(".txt");
        r
    }
}

/// Law: asset identity ignores the scheme. A URL reached over `http` and
/// the same URL reached over `https` collide to one asset name; this is
/// the documented collision policy, not an accident.
pub proof fn lemma_scheme_collision(rest: Seq<char>)
    ensures
        asset_name_spec("http://"@ + rest) == asset_name_spec("https://"@ + rest),
{
    reveal_strlit("http://");
    reveal_strlit("https://");
    let a = "http://"@ + rest;
    let b = "https://"@ + rest;
    assert(a.subrange(0, 7) =~= "http://"@);
    assert(b.subrange(0, 7)[4] == 's');
    assert(a.subrange(7, a.len() as int) =~= rest);
    assert(b.subrange(0, 8) =~= "https://"@);
    assert(b.subrange(8, b.len() as int) =~= rest);
    assert(scheme_stripped(a) == rest);
    assert(scheme_stripped(b) == rest);
}

} // verus!
