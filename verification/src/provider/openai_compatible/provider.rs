//! Image content of OpenAI-compatible messages: data URLs and the text an
//! assistant message falls back to.
use vstd::prelude::*;

use crate::skills::registry::first_index_of;
use crate::text::{ends_with, owned, push_str, starts_with, str_ends_with, str_starts_with, to_chars, from_chars, slice_range};
use crate::types::{ContentBlock, blocks_fallback, fallback_text_for_content_blocks, opt_str_view};

verus! {

/// `data:<mime>;base64,<payload>`.
pub open spec fn data_url(mime_type: Seq<char>, base64: Seq<char>) -> Seq<char> {
    "data:"@ + mime_type + ";base64,"@ + base64
}

/// The data URL of an inline image.
pub fn build_data_url(mime_type: &str, base64: &str) -> (r: String)
    ensures
        r@ == data_url(mime_type@, base64@),
{
    let mut s = owned("data:");
    push_str(&mut s, mime_type);
    push_str(&mut s, ";base64,");
    push_str(&mut s, base64);
    s
}

/// The MIME type and payload of a base64 data URL: what follows `data:`
/// split at its first comma, the part before ending in `;base64`.
pub open spec fn data_url_parts(url: Seq<char>) -> Option<(Seq<char>, Seq<char>)> {
    if !starts_with(url, "data:"@) {
        None
    } else {
        let payload = url.skip(5);
        match first_index_of(payload, ',') {
            None => None,
            Some(i) => {
                let meta = payload.take(i);
                if ends_with(meta, ";base64"@) {
                    Some((meta.take(meta.len() - 7), payload.skip(i + 1)))
                } else {
                    None
                }
            },
        }
    }
}

/// The inline image a data URL holds, if it is a base64 data URL.
pub fn parse_data_url_content_block(url: &str) -> (r: Option<ContentBlock>)
    ensures
        match (r, data_url_parts(url@)) {
            (Some(b), Some((m, d))) => b.block_type@ == "image_base64"@ && opt_str_view(b.mime_type) == Some(m)
                && opt_str_view(b.base64) == Some(d) && b.url is None,
            (None, None) => true,
            _ => false,
        },
{
    proof {
        reveal_strlit("data:");
        reveal_strlit(";base64");
    }
    if !str_starts_with(url, "data:") {
        return None;
    }
    let cs = to_chars(url);
    let payload = slice_range(&cs, 5, cs.len());
    let ghost pv = url@.skip(5);
    assert(payload@ =~= pv);
    let mut i: usize = 0;
    while i < payload.len() && payload[i] != ','
        invariant
            i <= payload.len(),
            payload@ == pv,
            forall|k: int| 0 <= k < i ==> pv[k] != ',',
        decreases payload.len() - i,
    {
        i = i + 1;
    }
    if i == payload.len() {
        assert(!exists|k: int| 0 <= k < pv.len() && pv[k] == ',');
        return None;
    }
    proof {
        assert(exists|k: int| 0 <= k < pv.len() && pv[k] == ',');
        let c = choose|k: int| 0 <= k < pv.len() && pv[k] == ',' && forall|j: int| 0 <= j < k ==> pv[j] != ',';
        assert(0 <= i && pv[i as int] == ',' && forall|j: int| 0 <= j < i ==> pv[j] != ',');
        if c < i {
            assert(pv[c] != ',');
        }
        if c > i {
            assert(pv[i as int] != ',');
        }
    }
    let meta = from_chars(&slice_range(&payload, 0, i));
    if !str_ends_with(meta.as_str(), ";base64") {
        return None;
    }
    let mcs = to_chars(meta.as_str());
    let mime = from_chars(&slice_range(&mcs, 0, mcs.len() - 7));
    let tail = slice_range(&payload, i + 1, payload.len());
    assert(tail@ =~= pv.skip(i + 1));
    let data = from_chars(&tail);
    assert(mime@ =~= meta@.take(meta@.len() - 7));
    Some(ContentBlock::image_base64(mime.as_str(), data.as_str()))
}

} // verus!
