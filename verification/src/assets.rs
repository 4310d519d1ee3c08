//! The files of the web page: which one is asked for, and in which form it is sent.
use crate::text;
use vstd::prelude::*;

verus! {

/// How the content of a file is coded.
#[derive(Clone, Copy, Debug, PartialEq, Eq, Structural)]
pub enum Coding {
    Brotli,
    Gzip,
    Plain,
}

/// What is sent of a file.
#[derive(Clone, Copy, Debug, PartialEq, Eq, Structural)]
pub enum AssetReply {
    /// Nothing: the one who asks has it already.
    NotModified,
    /// Its content, so coded.
    Content(Coding),
}

/// "index.html"
pub open spec fn index_file() -> Seq<char> {
    seq!['i', 'n', 'd', 'e', 'x', '.', 'h', 't', 'm', 'l']
}

/// The file that a path asks for: what follows the slashes at its start, or the index.
pub open spec fn file_for(path: Seq<char>) -> Seq<char> {
    let name = text::without_leading(path, seq!['/']);
    if name.len() == 0 {
        index_file()
    } else {
        name
    }
}

/// The file that a path asks for.
pub fn asset_path(uri_path: &str) -> (r: String)
    ensures
        r@ == file_for(uri_path@),
{
    proof {
        reveal_strlit("/");
        reveal_strlit("index.html");
        assert("/"@ =~= seq!['/']);
        assert("index.html"@ =~= index_file());
    }
    let name: &str = text::trim_leading(uri_path, "/");
    if name.is_empty() {
        "index.html".to_owned()
    } else {
        name.to_owned()
    }
}

/// A file is asked for by a path without a slash at its start.
pub proof fn law_file_has_no_leading_slash(path: Seq<char>)
    ensures
        file_for(path).len() > 0,
        file_for(path)[0] != '/',
{
    lemma_no_leading_slash(path);
}

proof fn lemma_no_leading_slash(s: Seq<char>)
    ensures
        text::without_leading(s, seq!['/']).len() > 0 ==> text::without_leading(s, seq!['/'])[0]
            != '/',
    decreases s.len(),
{
    if seq!['/'].is_prefix_of(s) {
        lemma_no_leading_slash(s.skip(1));
    } else if s.len() > 0 && s[0] == '/' {
        assert(s.subrange(0, 1) =~= seq!['/']);
    }
}

/// The coding that content is sent in: Brotli, then gzip, where the one who asks names it and the
/// file is there in it; else none.
pub open spec fn coding_for(accepted: Seq<char>, has_brotli: bool, has_gzip: bool) -> Coding {
    if text::contains_text(accepted, seq!['b', 'r']) && has_brotli {
        Coding::Brotli
    } else if text::contains_text(accepted, seq!['g', 'z', 'i', 'p']) && has_gzip {
        Coding::Gzip
    } else {
        Coding::Plain
    }
}

/// What is sent of a file: nothing where the entity tag that the one who asks has is that of the
/// file, else its content.
pub open spec fn reply_for(
    etag: Seq<char>,
    known_etag: Option<Seq<char>>,
    accepted: Seq<char>,
    has_brotli: bool,
    has_gzip: bool,
) -> AssetReply {
    if known_etag == Some(etag) {
        AssetReply::NotModified
    } else {
        AssetReply::Content(coding_for(accepted, has_brotli, has_gzip))
    }
}

/// What is sent of a file.
pub fn asset_reply(
    etag: &str,
    known_etag: Option<&str>,
    accepted: Option<&str>,
    has_brotli: bool,
    has_gzip: bool,
) -> (r: AssetReply)
    ensures
        r == reply_for(
            etag@,
            match known_etag {
                Some(t) => Some(t@),
                None => None,
            },
            match accepted {
                Some(t) => t@,
                None => Seq::empty(),
            },
            has_brotli,
            has_gzip,
        ),
{
    proof {
        reveal_strlit("");
        reveal_strlit("br");
        reveal_strlit("gzip");
        assert(""@ =~= Seq::empty());
        assert("br"@ =~= seq!['b', 'r']);
        assert("gzip"@ =~= seq!['g', 'z', 'i', 'p']);
    }
    if let Some(known) = known_etag {
        if text::same_text(known, etag) {
            return AssetReply::NotModified;
        }
    }
    let accepted: &str = match accepted {
        Some(t) => t,
        None => "",
    };
    if text::contains(accepted, "br") && has_brotli {
        AssetReply::Content(Coding::Brotli)
    } else if text::contains(accepted, "gzip") && has_gzip {
        AssetReply::Content(Coding::Gzip)
    } else {
        AssetReply::Content(Coding::Plain)
    }
}

/// The type of a file's content, where none is known: any bytes.
pub fn content_type(known: Option<&str>) -> (r: String)
    ensures
        r@ == (match known {
            Some(t) => t@,
            None => "application/octet-stream"@,
        }),
{
    match known {
        Some(t) => t.to_owned(),
        None => "application/octet-stream".to_owned(),
    }
}

} // verus!
