//! What holds of parameters, commands and messages.

use vstd::prelude::*;

use crate::at::builder::{at_param, beyond_ascii, beyond_gsm7, is_gsm7, sms_body};
use crate::at::utils::{cmgl_open, cmgl_text, normalized_command, ucs2_text};
use crate::text::trimmed;

verus! {

/// A parameter is taken over character by character, without quotes, backslashes and control
/// characters.
pub proof fn law_parameter_characters(s: Seq<char>, c: char)
    ensures
        c == '"' || c == '\\' || ' ' > c || '\u{7f}' <= c <= '\u{9f}' ==> at_param(s.push(c))
            == at_param(s),
        c != '"' && c != '\\' && c >= ' ' && (c < '\u{7f}' || c > '\u{9f}') ==> at_param(s.push(c))
            == at_param(s).push(c),
        at_param(Seq::empty()).len() == 0,
{
    reveal(Seq::filter);
    assert(s.push(c).drop_last() == s);
}

/// A message is taken over character by character, without those that would end it.
pub proof fn law_message_characters(s: Seq<char>, c: char)
    ensures
        sms_body(s.push('\u{1a}')) == sms_body(s),
        c != '\u{1a}' ==> sms_body(s.push(c)) == sms_body(s).push(c),
        sms_body(Seq::empty()).len() == 0,
{
    reveal(Seq::filter);
    assert(s.push(c).drop_last() == s);
    assert(s.push('\u{1a}').drop_last() == s);
}

/// A command is completed by `AT` unless it begins with that, in capitals or not, repeats the last
/// command or leaves the data mode. Nothing stays nothing.
pub proof fn law_completed_commands(s: Seq<char>)
    requires
        trimmed(s) == s,
    ensures
        normalized_command("AT"@ + s) == trimmed("AT"@ + s),
        normalized_command("at"@ + s) == trimmed("at"@ + s),
        normalized_command("A/"@) == "A/"@,
        normalized_command("a/"@) == "a/"@,
        normalized_command("+++"@) == "+++"@,
        s.len() == 0 ==> normalized_command(s).len() == 0,
        s.len() > 0 && !"AT"@.is_prefix_of(s) && !"at"@.is_prefix_of(s) && s != "A/"@ && s != "a/"@ && s
            != "+++"@ ==> normalized_command(s) == "AT"@ + s,
{
    reveal_strlit("AT");
    reveal_strlit("at");
    reveal_strlit("A/");
    reveal_strlit("a/");
    reveal_strlit("+++");
    assert(trimmed("A/"@) == "A/"@);
    assert(trimmed("a/"@) == "a/"@);
    assert(trimmed("+++"@) == "+++"@);
    let x = "AT"@ + s;
    let y = "at"@ + s;
    if s.len() > 0 {
        crate::text::law_trimmed_ends(s);
        assert(x.last() == s.last() && y.last() == s.last());
    }
    assert(trimmed(x) == x);
    assert(trimmed(y) == y);
    assert("AT"@ == x.subrange(0, 2));
    assert("at"@ == y.subrange(0, 2));
}

/// The bodies of a list of messages: a header opens one; in it digits of UCS-2 are shown as the
/// text that they encode, and any other line as it is; an empty line or `OK` closes it. Outside a
/// body every line is shown as it is.
pub proof fn law_message_bodies(ls: Seq<Seq<char>>, line: Seq<char>)
    ensures
        ({
            let shown = cmgl_text(ls.push(line));
            let open = cmgl_open(ls.push(line));
            let header = "+CMGL:"@.is_prefix_of(line);
            let t = trimmed(line);
            let closing = t.len() == 0 || t == "OK"@;
            &&& header ==> open && shown == cmgl_text(ls) + line + seq!['\n']
            &&& !header && closing ==> !open && shown == cmgl_text(ls) + line + seq!['\n']
            &&& !header && !cmgl_open(ls) ==> !open && shown == cmgl_text(ls) + line + seq!['\n']
            &&& !header && cmgl_open(ls) && !closing && ucs2_text(t).len() > 0 ==> open && shown
                == cmgl_text(ls) + ucs2_text(t) + seq!['\n']
            &&& !header && cmgl_open(ls) && !closing && ucs2_text(t).len() == 0 ==> open && shown
                == cmgl_text(ls) + line + seq!['\n']
        }),
        cmgl_text(Seq::empty()).len() == 0,
        !cmgl_open(Seq::empty()),
{
    let all = ls.push(line);
    assert(all.drop_last() == ls);
    assert(all.last() == line);
    let t = trimmed(line);
    assert((cmgl_text(ls) + line).push('\n') == cmgl_text(ls) + line + seq!['\n']);
    assert((cmgl_text(ls) + ucs2_text(t)).push('\n') == cmgl_text(ls) + ucs2_text(t) + seq!['\n']);
}

/// The characters of the default alphabet of messages and of its extension that are not ASCII, one
/// by one, and those that are.
pub proof fn law_message_alphabet(c: char)
    ensures
        c > '\u{7f}' ==> (is_gsm7(c) <==> ({
            c == '£' || c == '¥' || c == 'è' || c == 'é' || c == 'ù' || c == 'ì' || c == 'ò' ||
            c == 'Ç' || c == 'Ø' || c == 'ø' || c == 'Å' || c == 'å' || c == 'Δ' || c == 'Φ' ||
            c == 'Γ' || c == 'Λ' || c == 'Ω' || c == 'Π' || c == 'Ψ' || c == 'Σ' || c == 'Θ' ||
            c == 'Ξ' || c == 'Æ' || c == 'æ' || c == 'ß' || c == 'É' || c == '¤' || c == '¡' ||
            c == 'Ä' || c == 'Ö' || c == 'Ñ' || c == 'Ü' || c == '§' || c == '¿' || c == 'ä' ||
            c == 'ö' || c == 'ñ' || c == 'ü' || c == 'à' || c == '€'
        })),
        c <= '\u{7f}' ==> (is_gsm7(c) <==> c == '\n' || c == '\r' || c == '\u{c}' || (c >= ' ' && c
            != '`' && c != '\u{7f}')),
{
}

/// A message needs UCS-2 as soon as one of its characters does.
pub proof fn law_one_character_is_enough(s: Seq<char>, c: char)
    ensures
        beyond_gsm7(s.push(c)) <==> beyond_gsm7(s) || !is_gsm7(c),
        beyond_ascii(s.push(c)) <==> beyond_ascii(s) || c > '\u{7f}',
        !beyond_gsm7(Seq::empty()),
        !beyond_ascii(Seq::empty()),
{
    let t = s.push(c);
    assert(t[s.len() as int] == c);
    assert(forall|i: int| 0 <= i < s.len() ==> t[i] == s[i]);
    if beyond_gsm7(s) {
        let i = choose|i: int| 0 <= i < s.len() && !is_gsm7(#[trigger] s[i]);
        assert(!is_gsm7(t[i]));
    }
    if beyond_ascii(s) {
        let i = choose|i: int| 0 <= i < s.len() && #[trigger] s[i] > '\u{7f}';
        assert(t[i] > '\u{7f}');
    }
}

} // verus!
