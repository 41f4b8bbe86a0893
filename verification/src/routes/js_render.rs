//! Deferred, JavaScript-injected content.

use vstd::prelude::*;

use crate::templates::{blank_page, page_html, render_page, PageContext, PageView};
use crate::text::{decimal, joined, push_char, push_decimal};

verus! {

/// Query parameters accepted by the JS-rendered page.
pub struct JsRenderParams {
    /// Text injected into the page body after `delay_ms`.
    pub text: Option<String>,

    /// `document.title` set after `delay_ms`.
    pub title: Option<String>,

    /// `<link rel="canonical">` href injected into `<head>` after
    /// `delay_ms`.
    pub canonical: Option<String>,

    /// `<meta>` tag name injected into `<head>` after `delay_ms`, only
    /// if `meta_content` is also given.
    pub meta_name: Option<String>,

    /// `<meta>` tag content, paired with `meta_name`.
    pub meta_content: Option<String>,

    /// Delay, in milliseconds, before the JavaScript mutates the page.
    pub delay_ms: u64,
}

/// What `c` becomes inside a double-quoted JavaScript string literal.
pub open spec fn js_escaped_char(c: char) -> Seq<char> {
    if c == '\\' {
        "\\\\"@
    } else if c == '"' {
        "\\\""@
    } else if c == '\n' {
        "\\n"@
    } else if c == '\r' {
        "\\r"@
    } else if c == '<' {
        "\\u003C"@
    } else {
        seq![c]
    }
}

/// `s` escaped character by character for a JavaScript string literal.
pub open spec fn js_escaped(s: Seq<char>) -> Seq<char>
    decreases s.len(),
{
    if s.len() == 0 { Seq::empty() } else { js_escaped(s.drop_last()) + js_escaped_char(s.last()) }
}

/// `s` as a double-quoted JavaScript string literal.
pub open spec fn js_literal(s: Seq<char>) -> Seq<char> {
    "\""@ + js_escaped(s) + "\""@
}

/// Encodes `value` as a double-quoted JavaScript string literal, safe to
/// interpolate into a `<script>` block: backslashes, double quotes, and
/// newlines are escaped, and `<` is unicode-escaped so the value can't
/// break out of the surrounding `<script>` tag.
pub fn js_string_literal(value: &str) -> (r: String)
    ensures
        r@ == js_literal(value@),
{
    let mut literal = String::from_str("\"");
    let ghost start = literal@;
    for c in it: value.chars()
        invariant
            it.seq() == value@,
            literal@ == start + js_escaped(value@.take(it.index() as int)),
    {
        let ghost i = it.index();
        let ghost before = literal@;
        if c == '\\' {
            literal.append("\\\\");
        } else if c == '"' {
            literal.append("\\\"");
        } else if c == '\n' {
            literal.append("\\n");
        } else if c == '\r' {
            literal.append("\\r");
        } else if c == '<' {
            literal.append("\\u003C");
        } else {
            push_char(&mut literal, c);
        }
        proof {
            assert(value@.take(i + 1).drop_last() =~= value@.take(i));
            assert(value@.take(i + 1).last() == c);
            assert(literal@ =~= before + js_escaped_char(c));
            assert(literal@ =~= start + js_escaped(value@.take(i + 1)));
        }
    }
    assert(value@.take(value@.len() as int) =~= value@);
    literal.append("\"");
    assert(literal@ =~= js_literal(value@));
    literal
}

/// An escaped literal never holds a `<` (so it cannot close the
/// `<script>` around it) nor a raw line break.
pub proof fn law_js_literal_cannot_break_out_of_its_script(s: Seq<char>)
    ensures
        forall|i: int| 0 <= i < js_escaped(s).len() ==> {
            let c = #[trigger] js_escaped(s)[i];
            c != '<' && c != '\n' && c != '\r'
        },
    decreases s.len(),
{
    reveal_strlit("\\\\");
    reveal_strlit("\\\"");
    reveal_strlit("\\n");
    reveal_strlit("\\r");
    reveal_strlit("\\u003C");
    if s.len() > 0 {
        law_js_literal_cannot_break_out_of_its_script(s.drop_last());
        let head = js_escaped(s.drop_last());
        let tail = js_escaped_char(s.last());
        assert forall|i: int| 0 <= i < js_escaped(s).len() implies {
            let c = #[trigger] js_escaped(s)[i];
            c != '<' && c != '\n' && c != '\r'
        } by {
            if i < head.len() {
                assert(js_escaped(s)[i] == head[i]);
            } else {
                assert(js_escaped(s)[i] == tail[i - head.len()]);
            }
        }
    }
}

/// How JavaScript reads the inside of a string literal made by
/// [`js_escaped`]: `\n` and `\r` are line breaks, `\u003C` is `<`, a
/// backslash before any other character stands for that character, and
/// every other character stands for itself.
pub open spec fn js_read(t: Seq<char>) -> Seq<char>
    decreases t.len(),
{
    if t.len() == 0 {
        Seq::empty()
    } else if t.len() >= 6 && t.subrange(0, 6) == "\\u003C"@ {
        seq!['<'] + js_read(t.skip(6))
    } else if t[0] == '\\' && t.len() >= 2 {
        let c = if t[1] == 'n' { '\n' } else if t[1] == 'r' { '\r' } else { t[1] };
        seq![c] + js_read(t.skip(2))
    } else {
        seq![t[0]] + js_read(t.skip(1))
    }
}

proof fn lemma_js_escaped_append(a: Seq<char>, b: Seq<char>)
    ensures
        js_escaped(a + b) == js_escaped(a) + js_escaped(b),
    decreases b.len(),
{
    if b.len() == 0 {
        assert(a + b =~= a);
        assert(js_escaped(a) + js_escaped(b) =~= js_escaped(a));
    } else {
        lemma_js_escaped_append(a, b.drop_last());
        assert((a + b).drop_last() =~= a + b.drop_last());
        assert((a + b).last() == b.last());
        assert(js_escaped(a + b) =~= js_escaped(a) + js_escaped(b));
    }
}

/// Reading a literal back gives the value it was made from: the quotes
/// enclose exactly the escaped value, and JavaScript reads the escapes
/// back as the original characters.
pub proof fn law_reading_a_js_literal_back_gives_the_value(s: Seq<char>)
    ensures
        js_literal(s).len() >= 2,
        js_literal(s)[0] == '"',
        js_literal(s).last() == '"',
        js_read(js_literal(s).subrange(1, js_literal(s).len() - 1)) == s,
    decreases s.len(),
{
    reveal_strlit("\"");
    assert(js_literal(s).subrange(1, js_literal(s).len() - 1) =~= js_escaped(s));
    lemma_js_read_escaped(s);
}

proof fn lemma_js_read_escaped(s: Seq<char>)
    ensures
        js_read(js_escaped(s)) == s,
    decreases s.len(),
{
    reveal_strlit("\\\\");
    reveal_strlit("\\\"");
    reveal_strlit("\\n");
    reveal_strlit("\\r");
    reveal_strlit("\\u003C");
    if s.len() == 0 {
        assert(js_escaped(s) =~= Seq::<char>::empty());
    } else {
        let c = s[0];
        let r = s.drop_first();
        lemma_js_read_escaped(r);
        assert(s =~= seq![c] + r);
        lemma_js_escaped_append(seq![c], r);
        assert(seq![c].drop_last() =~= Seq::<char>::empty());
        assert(seq![c].last() == c);
        assert(js_escaped(Seq::<char>::empty()) =~= Seq::<char>::empty());
        assert(js_escaped(seq![c]) == js_escaped(Seq::<char>::empty()) + js_escaped_char(c));
        assert(js_escaped(seq![c]) =~= js_escaped_char(c));
        let e = js_escaped_char(c);
        let t = e + js_escaped(r);
        assert(js_escaped(s) == t);
        assert(t.skip(e.len() as int) =~= js_escaped(r));
        if c == '<' {
            assert(t.subrange(0, 6) =~= "\\u003C"@);
        } else if c == '\\' || c == '"' || c == '\n' || c == '\r' {
            assert(t.len() >= 6 ==> t.subrange(0, 6)[1] != "\\u003C"@[1]);
        } else {
            assert(t[0] == c);
            assert(t.len() >= 6 ==> t.subrange(0, 6)[0] != "\\u003C"@[0]);
        }
        assert(js_read(t) =~= seq![c] + r);
    }
}

/// The statements that inject each given value, in order: body text,
/// title, canonical link, then the meta tag (only when both its name and
/// its content are given).
pub open spec fn injection_statements(p: JsRenderParams) -> Seq<Seq<char>> {
    let text = match p.text {
        Some(t) => seq!["document.getElementById('js-content').textContent = "@ + js_literal(t@) + ";"@],
        None => Seq::empty(),
    };
    let title = match p.title {
        Some(t) => seq!["document.title = "@ + js_literal(t@) + ";"@],
        None => Seq::empty(),
    };
    let canonical = match p.canonical {
        Some(c) => seq![
            "var link = document.createElement('link'); link.rel = 'canonical'; link.href = "@ + js_literal(c@)
                + "; document.head.appendChild(link);"@,
        ],
        None => Seq::empty(),
    };
    let meta = match (p.meta_name, p.meta_content) {
        (Some(n), Some(c)) => seq![
            "var meta = document.createElement('meta'); meta.name = "@ + js_literal(n@) + "; meta.content = "@
                + js_literal(c@) + "; document.head.appendChild(meta);"@,
        ],
        _ => Seq::empty(),
    };
    text + title + canonical + meta
}

/// The JS-rendered page for `p`: nothing but the deferred script that
/// runs every injection after `delay_ms` — no script at all when there
/// is nothing to inject.
pub open spec fn js_render_view(p: JsRenderParams) -> PageView {
    let statements = injection_statements(p);
    PageView {
        deferred_script: if statements.len() == 0 {
            None
        } else {
            Some(
                "setTimeout(function() { "@ + joined(statements, " "@) + " }, "@ + decimal(p.delay_ms as nat) + ");"@,
            )
        },
        ..blank_page()
    }
}

/// Returns an HTML page whose initial, server-rendered markup carries
/// none of `text`, `title`, `canonical`, or the `meta_name`/`meta_content`
/// pair — each is injected into the DOM via JavaScript after `delay_ms`
/// instead.
pub fn js_render(params: JsRenderParams) -> (r: String)
    ensures
        r@ == page_html(js_render_view(params)),
{
    let ghost p = params;
    let mut statements: Vec<String> = Vec::new();
    if let Some(text) = &params.text {
        let mut s = String::from_str("document.getElementById('js-content').textContent = ");
        let lit = js_string_literal(text.as_str());
        s.append(lit.as_str());
        s.append(";");
        statements.push(s);
    }
    let ghost after_text = statements.deep_view();
    if let Some(title) = &params.title {
        let mut s = String::from_str("document.title = ");
        let lit = js_string_literal(title.as_str());
        s.append(lit.as_str());
        s.append(";");
        statements.push(s);
    }
    let ghost after_title = statements.deep_view();
    if let Some(canonical) = &params.canonical {
        let mut s = String::from_str("var link = document.createElement('link'); link.rel = 'canonical'; link.href = ");
        let lit = js_string_literal(canonical.as_str());
        s.append(lit.as_str());
        s.append("; document.head.appendChild(link);");
        statements.push(s);
    }
    let ghost after_canonical = statements.deep_view();
    if let (Some(name), Some(content)) = (&params.meta_name, &params.meta_content) {
        let mut s = String::from_str("var meta = document.createElement('meta'); meta.name = ");
        let lit = js_string_literal(name.as_str());
        s.append(lit.as_str());
        s.append("; meta.content = ");
        let lit2 = js_string_literal(content.as_str());
        s.append(lit2.as_str());
        s.append("; document.head.appendChild(meta);");
        statements.push(s);
    }
    proof {
        assert(statements.deep_view() =~= injection_statements(p));
    }
    let mut context = PageContext::default();
    if statements.len() > 0 {
        let mut script = String::from_str("setTimeout(function() { ");
        let mut i: usize = 0;
        while i < statements.len()
            invariant
                0 < statements.len(),
                i <= statements.len(),
                script@ == "setTimeout(function() { "@ + joined(statements.deep_view().take(i as int), " "@),
            decreases statements.len() - i,
        {
            let ghost before = script@;
            if i > 0 {
                script.append(" ");
            }
            script.append(statements[i].as_str());
            proof {
                let d = statements.deep_view();
                assert(d.take(i + 1).drop_last() =~= d.take(i as int));
                assert(d.take(i + 1).last() == statements@[i as int]@);
                if i == 0 {
                    assert(d.take(1)[0] == d[0]);
                }
                assert(script@ =~= "setTimeout(function() { "@ + joined(d.take(i + 1), " "@));
            }
            i = i + 1;
        }
        assert(statements.deep_view().take(statements.len() as int) =~= statements.deep_view());
        script.append(" }, ");
        push_decimal(&mut script, params.delay_ms);
        script.append(");");
        context.deferred_script = Some(script);
    }
    assert(context@ =~= js_render_view(p));
    render_page(context)
}

/// The JS-rendered page carries nothing but its script: no title, no
/// canonical link, no text, no raw markup. The script is there exactly
/// when something is injected, and it holds one statement per injected
/// value — the meta tag's only when both its name and its content are
/// given.
pub proof fn law_js_render_injects_only_through_its_script(p: JsRenderParams)
    ensures
        ({
            let v = js_render_view(p);
            let both_meta = p.meta_name is Some && p.meta_content is Some;
            &&& v.titles.len() == 0
            &&& v.canonical_in_head.len() == 0
            &&& v.canonical_in_body.len() == 0
            &&& v.h1.len() == 0
            &&& v.body.len() == 0
            &&& v.raw_head is None && v.raw_body is None
            &&& (v.deferred_script is Some <==> (p.text is Some || p.title is Some || p.canonical is Some || both_meta))
            &&& injection_statements(p).len() == (if p.text is Some { 1int } else { 0 }) + (if p.title is Some { 1int } else { 0 })
                + (if p.canonical is Some { 1int } else { 0 }) + (if both_meta { 1int } else { 0 })
        }),
{
}

} // verus!
