//! Centralized user-facing strings, and the placeholder filling used to
//! build messages from them.
use vstd::prelude::*;
use vstd::string::*;

verus! {

pub const APP_TITLE: &'static str = "NTerm - Terminal Emulator";

pub const APP_ID: &'static str = "com.nterm.Terminal";

// Tab labels
pub const TAB_LABEL_TERMINAL: &'static str = "Terminal";

// Tooltips
pub const TOOLTIP_SEARCH: &'static str = "Search in terminal (Ctrl+Shift+F)";

pub const TOOLTIP_SEARCH_PREVIOUS: &'static str = "Previous result (Shift+Enter)";

pub const TOOLTIP_SEARCH_NEXT: &'static str = "Next result (Enter)";

// Dialog messages
pub const DIALOG_CLOSE_TAB_TITLE: &'static str = "Close tab?";

pub const DIALOG_CLOSE_TAB_MESSAGE: &'static str =
    "The program '{}' is running in this tab. Do you really want to close it?";

pub const BUTTON_CANCEL: &'static str = "Cancel";

pub const BUTTON_CLOSE: &'static str = "Close";

// Error messages
pub const ERROR_FAILED_TO_OPEN_URL: &'static str = "Failed to open URL {}: {}";

pub const ERROR_LAUNCHING_SHELL: &'static str = "Error launching shell: {}";

pub const ERROR_COMPILE_HTTP_REGEX: &'static str = "Failed to compile HTTP/FTP regex pattern";

pub const ERROR_COMPILE_EMAIL_REGEX: &'static str = "Failed to compile email regex pattern";

/// `template` with every `{}`, scanning left to right without overlap,
/// replaced by `param`.
pub open spec fn fill_placeholders(template: Seq<char>, param: Seq<char>) -> Seq<char>
    decreases template.len(),
{
    if template.len() == 0 {
        Seq::empty()
    } else if template.len() >= 2 && template[0] == '{' && template[1] == '}' {
        param + fill_placeholders(template.skip(2), param)
    } else {
        seq![template[0]] + fill_placeholders(template.skip(1), param)
    }
}

/// A `{}` starts at position `i` of `template`.
pub open spec fn placeholder_at(template: Seq<char>, i: int) -> bool {
    0 <= i && i + 1 < template.len() && template[i] == '{' && template[i + 1] == '}'
}

/// A template with no `{}` comes back unchanged, whatever the parameter.
pub proof fn law_fill_without_placeholder(template: Seq<char>, param: Seq<char>)
    requires
        forall|i: int| !#[trigger] placeholder_at(template, i),
    ensures
        fill_placeholders(template, param) == template,
    decreases template.len(),
{
    if template.len() > 0 {
        let rest = template.skip(1);
        assert(!placeholder_at(template, 0));
        assert forall|i: int| !#[trigger] placeholder_at(rest, i) by {
            assert(!placeholder_at(template, i + 1));
            if 0 <= i && i + 1 < rest.len() {
                assert(rest[i] == template[i + 1] && rest[i + 1] == template[i + 2]);
            }
        }
        law_fill_without_placeholder(rest, param);
        assert(template =~= seq![template[0]] + rest);
    }
}

/// Filling works piece by piece: a `{}` that follows a piece of text not
/// ending in `{` becomes the parameter, and the text on either side of it
/// is filled on its own, so that every `{}` is replaced, not only the
/// first.
pub proof fn law_fill_around_placeholder(a: Seq<char>, b: Seq<char>, param: Seq<char>)
    requires
        a.len() == 0 || a.last() != '{',
    ensures
        fill_placeholders(a + "{}"@ + b, param) == fill_placeholders(a, param) + param
            + fill_placeholders(b, param),
    decreases a.len(),
{
    reveal_strlit("{}");
    let t = a + "{}"@ + b;
    if a.len() == 0 {
        assert(t.skip(2) =~= b);
        assert(fill_placeholders(a, param) =~= Seq::<char>::empty());
        assert(fill_placeholders(a, param) + param + fill_placeholders(b, param) =~= param
            + fill_placeholders(b, param));
    } else if a.len() >= 2 && a[0] == '{' && a[1] == '}' {
        let a2 = a.skip(2);
        assert(t.skip(2) =~= a2 + "{}"@ + b);
        law_fill_around_placeholder(a2, b, param);
        assert(fill_placeholders(t, param) =~= param + fill_placeholders(a2, param) + param
            + fill_placeholders(b, param));
    } else {
        let a1 = a.skip(1);
        assert(t[0] == a[0]);
        if a.len() >= 2 {
            assert(t[1] == a[1]);
        }
        assert(t.skip(1) =~= a1 + "{}"@ + b);
        if a1.len() > 0 {
            assert(a1.last() == a.last());
        }
        law_fill_around_placeholder(a1, b, param);
        assert(fill_placeholders(t, param) =~= seq![a[0]] + fill_placeholders(a1, param) + param
            + fill_placeholders(b, param));
    }
}

/// Format a string with a single parameter: every `{}` in `template`
/// becomes `param`.
pub fn format_single(template: &str, param: &str) -> (r: String)
    ensures
        r@ == fill_placeholders(template@, param@),
{
    let n = template.unicode_len();
    let mut out = String::new();
    let mut i: usize = 0;
    assert(template@.skip(0) =~= template@);
    assert(out@ + fill_placeholders(template@, param@) =~= fill_placeholders(template@, param@));
    while i < n
        invariant
            i <= n,
            n == template@.len(),
            out@ + fill_placeholders(template@.skip(i as int), param@) == fill_placeholders(
                template@,
                param@,
            ),
        decreases n - i,
    {
        let ghost rest = template@.skip(i as int);
        if i + 1 < n && template.get_char(i) == '{' && template.get_char(i + 1) == '}' {
            assert(rest.skip(2) =~= template@.skip(i + 2));
            assert(rest[0] == '{' && rest[1] == '}');
            out.append(param);
            assert(out@ + fill_placeholders(template@.skip(i + 2), param@) =~= fill_placeholders(
                template@,
                param@,
            ));
            i = i + 2;
        } else {
            let piece = template.substring_char(i, i + 1);
            assert(rest.skip(1) =~= template@.skip(i + 1));
            assert(piece@ =~= seq![rest[0]]);
            assert(!(rest.len() >= 2 && rest[0] == '{' && rest[1] == '}'));
            out.append(piece);
            assert(out@ + fill_placeholders(template@.skip(i + 1), param@) =~= fill_placeholders(
                template@,
                param@,
            ));
            i = i + 1;
        }
    }
    assert(template@.skip(n as int) =~= Seq::<char>::empty());
    assert(out@ =~= out@ + fill_placeholders(template@.skip(n as int), param@));
    out
}

/// Whether two strings hold the same characters.
pub fn same_text(a: &str, b: &str) -> (r: bool)
    ensures
        r == (a@ == b@),
{
    let sa = String::from_str(a);
    let sb = String::from_str(b);
    sa == sb
}

/// Format the close tab dialog message with the program name.
pub fn format_close_tab_message(program_name: &str) -> (r: String)
    ensures
        r@ == fill_placeholders(DIALOG_CLOSE_TAB_MESSAGE@, program_name@),
{
    format_single(DIALOG_CLOSE_TAB_MESSAGE, program_name)
}

} // verus!
