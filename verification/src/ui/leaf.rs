//! What a Ctrl-click on a matched link opens.
use vstd::prelude::*;
use vstd::string::*;

verus! {

/// `prefix` starts `s`.
pub open spec fn has_prefix(s: Seq<char>, prefix: Seq<char>) -> bool {
    prefix.len() <= s.len() && s.subrange(0, prefix.len() as int) == prefix
}

/// The address opened for matched text: web and FTP links as they are,
/// text with an `@` as a `mailto:` address, anything else as it is.
pub open spec fn url_for_match_spec(matched: Seq<char>) -> Seq<char> {
    if has_prefix(matched, "http://"@) || has_prefix(matched, "https://"@) || has_prefix(
        matched,
        "ftp://"@,
    ) || has_prefix(matched, "ftps://"@) {
        matched
    } else if matched.contains('@') {
        "mailto:"@ + matched
    } else {
        matched
    }
}

fn starts_with(s: &str, prefix: &str) -> (r: bool)
    ensures
        r == has_prefix(s@, prefix@),
{
    let n = s.unicode_len();
    let m = prefix.unicode_len();
    if m > n {
        return false;
    }
    let mut i: usize = 0;
    while i < m
        invariant
            i <= m <= n,
            n == s@.len(),
            m == prefix@.len(),
            forall|j: int| 0 <= j < i ==> s@[j] == prefix@[j],
        decreases m - i,
    {
        if s.get_char(i) != prefix.get_char(i) {
            assert(s@.subrange(0, m as int)[i as int] != prefix@[i as int]);
            return false;
        }
        i = i + 1;
    }
    assert(s@.subrange(0, m as int) =~= prefix@);
    true
}

fn contains_char(s: &str, c: char) -> (r: bool)
    ensures
        r == s@.contains(c),
{
    let n = s.unicode_len();
    let mut i: usize = 0;
    while i < n
        invariant
            i <= n,
            n == s@.len(),
            forall|j: int| 0 <= j < i ==> s@[j] != c,
        decreases n - i,
    {
        if s.get_char(i) == c {
            assert(s@[i as int] == c);
            return true;
        }
        i = i + 1;
    }
    false
}

/// The address to open for text matched under a Ctrl-click.
pub fn url_for_match(matched: &str) -> (r: String)
    ensures
        r@ == url_for_match_spec(matched@),
{
    if starts_with(matched, "http://") || starts_with(matched, "https://") || starts_with(
        matched,
        "ftp://",
    ) || starts_with(matched, "ftps://") {
        String::from_str(matched)
    } else if contains_char(matched, '@') {
        String::from_str("mailto:").concat(matched)
    } else {
        String::from_str(matched)
    }
}

/// A web or FTP link is opened as it is, whatever follows its scheme,
/// an `@` included.
pub proof fn law_links_open_as_they_are(rest: Seq<char>)
    ensures
        url_for_match_spec("http://"@ + rest) == "http://"@ + rest,
        url_for_match_spec("https://"@ + rest) == "https://"@ + rest,
        url_for_match_spec("ftp://"@ + rest) == "ftp://"@ + rest,
        url_for_match_spec("ftps://"@ + rest) == "ftps://"@ + rest,
{
    assert(("http://"@ + rest).subrange(0, "http://"@.len() as int) =~= "http://"@);
    assert(("https://"@ + rest).subrange(0, "https://"@.len() as int) =~= "https://"@);
    assert(("ftp://"@ + rest).subrange(0, "ftp://"@.len() as int) =~= "ftp://"@);
    assert(("ftps://"@ + rest).subrange(0, "ftps://"@.len() as int) =~= "ftps://"@);
}

/// Text that starts with none of `http://`, `https://`, `ftp://` and
/// `ftps://` is opened as a `mailto:` address when it holds an `@`, and
/// as it is otherwise.
pub proof fn law_mail_addresses(matched: Seq<char>)
    requires
        !has_prefix(matched, "http://"@),
        !has_prefix(matched, "https://"@),
        !has_prefix(matched, "ftp://"@),
        !has_prefix(matched, "ftps://"@),
    ensures
        matched.contains('@') ==> url_for_match_spec(matched) == "mailto:"@ + matched,
        !matched.contains('@') ==> url_for_match_spec(matched) == matched,
{
}

} // verus!
