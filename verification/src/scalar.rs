//! The standalone Scalar API-reference page.

use vstd::prelude::*;

use crate::text::{chars_of, replace_all, replaced, string_from_chars};

verus! {

/// Options for the Scalar interactive API reference HTML shell.
#[derive(Debug, Clone)]
pub struct ScalarOptions<'a> {
    pub title: &'a str,
    /// URL the browser fetches for the OpenAPI JSON (e.g. `/api/openapi.json`).
    pub openapi_url: &'a str,
    /// Extra CSS injected into the page (and as Scalar `customCss`).
    pub custom_css: &'a str,
    pub dark_mode: bool,
    pub hide_agent: bool,
    pub hide_mcp: bool,
    pub hide_client_button: bool,
    pub hide_clients: bool,
}

impl Default for ScalarOptions<'static> {
    fn default() -> (o: Self)
        ensures
            o.title@ == "API Reference"@,
            o.openapi_url@ == "/api/openapi.json"@,
            o.custom_css@ == ""@,
            o.dark_mode,
            o.hide_agent,
            o.hide_mcp,
            o.hide_client_button,
            o.hide_clients,
    {
        ScalarOptions {
            title: "API Reference",
            openapi_url: "/api/openapi.json",
            custom_css: "",
            dark_mode: true,
            hide_agent: true,
            hide_mcp: true,
            hide_client_button: true,
            hide_clients: true,
        }
    }
}

/// `css` made safe to sit between the backticks of a JavaScript template literal:
/// each `\` is doubled, then each `` ` `` and each `${` gets a `\` in front.
pub open spec fn template_escaped(css: Seq<char>) -> Seq<char> {
    replaced(
        replaced(replaced(css, seq!['\\'], seq!['\\', '\\']), seq!['`'], seq!['\\', '`']),
        seq!['$', '{'],
        seq!['\\', '$', '{'],
    )
}

/// `true` / `false` as JavaScript writes them.
pub open spec fn bool_text(b: bool) -> Seq<char> {
    if b {
        "true"@
    } else {
        "false"@
    }
}

/// The `<title>` element.
pub open spec fn title_element(opts: ScalarOptions) -> Seq<char> {
    "<title>"@ + opts.title@ + "</title>"@
}

/// The `<style>` element.
pub open spec fn style_element(opts: ScalarOptions) -> Seq<char> {
    "<style>"@ + opts.custom_css@ + "</style>"@
}

/// The `url` entry of the script: the OpenAPI URL in quotes.
pub open spec fn url_entry(opts: ScalarOptions) -> Seq<char> {
    "url: '"@ + opts.openapi_url@ + "'"@
}

/// The `customCss` entry of the script: the escaped CSS between backticks.
pub open spec fn custom_css_entry(opts: ScalarOptions) -> Seq<char> {
    "customCss: `"@ + template_escaped(opts.custom_css@) + "`"@
}

/// The colour scheme: `dark` in dark mode, `light` otherwise.
pub open spec fn color_scheme_of(opts: ScalarOptions) -> Seq<char> {
    if opts.dark_mode {
        "dark"@
    } else {
        "light"@
    }
}

/// The `<html>` class: `dark-mode` in dark mode, empty otherwise.
pub open spec fn dark_class_of(opts: ScalarOptions) -> Seq<char> {
    if opts.dark_mode {
        "dark-mode"@
    } else {
        ""@
    }
}

/// The document up to the `<html>` element's head content.
pub open spec fn page_opening(opts: ScalarOptions) -> Seq<char> {
    "<!doctype html>\n<html class=\""@ + dark_class_of(opts) + "\">\n<head>\n    "@
}

/// The `<meta>` elements, ending with the colour scheme.
pub open spec fn meta_elements(opts: ScalarOptions) -> Seq<char> {
    "\n    <meta charset=\"utf-8\"/>\n    <meta name=\"viewport\" content=\"width=device-width, initial-scale=1\"/>\n    <meta name=\"color-scheme\" content=\""@
        + color_scheme_of(opts) + "\"/>\n    "@
}

/// The document through the end of `<head>`.
pub open spec fn document_head(opts: ScalarOptions) -> Seq<char> {
    page_opening(opts) + title_element(opts) + meta_elements(opts) + style_element(opts)
        + "\n</head>\n"@
}

/// The body up to the `agent` flag: the script opens Scalar on the URL, in the mode.
pub open spec fn script_opening(opts: ScalarOptions) -> Seq<char> {
    "<body>\n    <div id=\"app\"></div>\n    <script src=\"https://cdn.jsdelivr.net/npm/@scalar/api-reference\"></script>\n    <script>\n        Scalar.createApiReference('#app', {\n            "@
        + url_entry(opts) + script_mode(opts)
}

/// The script's mode entries, up to the `agent` flag.
pub open spec fn script_mode(opts: ScalarOptions) -> Seq<char> {
    ",\n            theme: 'none',\n            darkMode: "@ + bool_text(opts.dark_mode)
        + ",\n            forceDarkModeState: '"@ + color_scheme_of(opts)
        + "',\n            hideDarkModeToggle: "@ + bool_text(opts.dark_mode)
        + ",\n            withDefaultFonts: false,\n            agent: { disabled: "@
}

/// The page text around the four hide flags' literals, in five pieces; they depend on
/// the title, URL, CSS and dark mode only. Dark mode sets the `dark-mode` class, the
/// `dark` colour scheme, the forced `dark` state and hides the toggle; light mode leaves
/// the class empty and uses `light`.
pub open spec fn page_segments(opts: ScalarOptions) -> Seq<Seq<char>> {
    seq![
        document_head(opts) + script_opening(opts),
        " },\n            mcp: { disabled: "@,
        " },\n            hideClientButton: "@,
        ",\n            hiddenClients: "@,
        ",\n            "@ + custom_css_entry(opts) + ",\n        });\n    </script>\n</body>\n</html>\n"@,
    ]
}

/// The page: an HTML shell whose script hands the options to Scalar, each hide flag's
/// literal standing between the pieces of `page_segments`.
pub open spec fn scalar_page(opts: ScalarOptions) -> Seq<char> {
    let s = page_segments(opts);
    s[0] + bool_text(opts.hide_agent) + s[1] + bool_text(opts.hide_mcp) + s[2] + bool_text(
        opts.hide_client_button,
    ) + s[3] + bool_text(opts.hide_clients) + s[4]
}

/// Each hide flag changes only its own literal: two option sets that agree on the title,
/// URL, CSS and dark mode give pages made of the same five pieces, with each page's own
/// `true` / `false` for `agent`, `mcp`, `hideClientButton` and `hiddenClients` between them.
pub proof fn hide_flags_change_only_their_literals(o1: ScalarOptions, o2: ScalarOptions)
    requires
        o1.title@ == o2.title@,
        o1.openapi_url@ == o2.openapi_url@,
        o1.custom_css@ == o2.custom_css@,
        o1.dark_mode == o2.dark_mode,
    ensures
        page_segments(o1) == page_segments(o2),
        scalar_page(o2) == page_segments(o1)[0] + bool_text(o2.hide_agent) + page_segments(o1)[1]
            + bool_text(o2.hide_mcp) + page_segments(o1)[2] + bool_text(o2.hide_client_button)
            + page_segments(o1)[3] + bool_text(o2.hide_clients) + page_segments(o1)[4],
{
    assert(page_segments(o1) =~= page_segments(o2));
}

/// `w` occurs in `s` as a contiguous piece.
pub open spec fn occurs_in(w: Seq<char>, s: Seq<char>) -> bool {
    exists|p: int| 0 <= p && p + w.len() <= s.len() && #[trigger] s.subrange(p, p + w.len()) == w
}

proof fn lemma_occurs_between(x: Seq<char>, w: Seq<char>, y: Seq<char>)
    ensures
        occurs_in(w, x + w + y),
{
    let s = x + w + y;
    assert(s.subrange(x.len() as int, (x.len() + w.len()) as int) =~= w);
}

/// The page shows what the options hold, whatever the mode: the `<title>` element holds
/// the title, the `<style>` element holds the custom CSS verbatim, the script points
/// Scalar at the OpenAPI URL, and its `customCss` is the escaped CSS between backticks.
pub proof fn page_shows_the_options(o: ScalarOptions)
    ensures
        occurs_in("<title>"@ + o.title@ + "</title>"@, scalar_page(o)),
        occurs_in("<style>"@ + o.custom_css@ + "</style>"@, scalar_page(o)),
        occurs_in("url: '"@ + o.openapi_url@ + "'"@, scalar_page(o)),
        occurs_in("customCss: `"@ + template_escaped(o.custom_css@) + "`"@, scalar_page(o)),
{
    lemma_page_shows_head(o);
    lemma_page_shows_script(o);
}

proof fn lemma_occurs_append(w: Seq<char>, s: Seq<char>, y: Seq<char>)
    requires
        occurs_in(w, s),
    ensures
        occurs_in(w, s + y),
{
    let p = choose|p: int| 0 <= p && p + w.len() <= s.len() && #[trigger] s.subrange(p, p + w.len()) == w;
    assert((s + y).subrange(p, p + w.len()) =~= s.subrange(p, p + w.len()));
}

proof fn lemma_occurs_prepend(w: Seq<char>, x: Seq<char>, s: Seq<char>)
    requires
        occurs_in(w, s),
    ensures
        occurs_in(w, x + s),
{
    let p = choose|p: int| 0 <= p && p + w.len() <= s.len() && #[trigger] s.subrange(p, p + w.len()) == w;
    assert((x + s).subrange(x.len() + p, x.len() + p + w.len()) =~= s.subrange(p, p + w.len()));
}

/// Whatever occurs in the page's head or script opening occurs in the page.
proof fn lemma_occurs_in_page(w: Seq<char>, o: ScalarOptions)
    requires
        occurs_in(w, document_head(o)) || occurs_in(w, script_opening(o)),
    ensures
        occurs_in(w, scalar_page(o)),
{
    let seg = page_segments(o);
    if occurs_in(w, document_head(o)) {
        lemma_occurs_append(w, document_head(o), script_opening(o));
    } else {
        lemma_occurs_prepend(w, document_head(o), script_opening(o));
    }
    assert(seg[0] == document_head(o) + script_opening(o));
    let a1 = seg[0] + bool_text(o.hide_agent);
    lemma_occurs_append(w, seg[0], bool_text(o.hide_agent));
    let a2 = a1 + seg[1];
    lemma_occurs_append(w, a1, seg[1]);
    let a3 = a2 + bool_text(o.hide_mcp);
    lemma_occurs_append(w, a2, bool_text(o.hide_mcp));
    let a4 = a3 + seg[2];
    lemma_occurs_append(w, a3, seg[2]);
    let a5 = a4 + bool_text(o.hide_client_button);
    lemma_occurs_append(w, a4, bool_text(o.hide_client_button));
    let a6 = a5 + seg[3];
    lemma_occurs_append(w, a5, seg[3]);
    let a7 = a6 + bool_text(o.hide_clients);
    lemma_occurs_append(w, a6, bool_text(o.hide_clients));
    lemma_occurs_append(w, a7, seg[4]);
    assert(scalar_page(o) == a7 + seg[4]);
}

proof fn lemma_page_shows_head(o: ScalarOptions)
    ensures
        occurs_in("<title>"@ + o.title@ + "</title>"@, scalar_page(o)),
        occurs_in("<style>"@ + o.custom_css@ + "</style>"@, scalar_page(o)),
        occurs_in("url: '"@ + o.openapi_url@ + "'"@, scalar_page(o)),
{
    let t = title_element(o);
    let st = style_element(o);
    let u = url_entry(o);
    lemma_occurs_between(page_opening(o), t, Seq::<char>::empty());
    assert(page_opening(o) + t + Seq::<char>::empty() =~= page_opening(o) + t);
    lemma_occurs_append(t, page_opening(o) + t, meta_elements(o));
    lemma_occurs_append(t, page_opening(o) + t + meta_elements(o), st);
    lemma_occurs_append(t, page_opening(o) + t + meta_elements(o) + st, "\n</head>\n"@);
    lemma_occurs_in_page(t, o);
    lemma_occurs_between(page_opening(o) + t + meta_elements(o), st, "\n</head>\n"@);
    lemma_occurs_in_page(st, o);
    let lead = "<body>\n    <div id=\"app\"></div>\n    <script src=\"https://cdn.jsdelivr.net/npm/@scalar/api-reference\"></script>\n    <script>\n        Scalar.createApiReference('#app', {\n            "@;
    lemma_occurs_between(lead, u, script_mode(o));
    assert(script_opening(o) == lead + u + script_mode(o));
    lemma_occurs_in_page(u, o);
}

proof fn lemma_page_shows_script(o: ScalarOptions)
    ensures
        occurs_in("customCss: `"@ + template_escaped(o.custom_css@) + "`"@, scalar_page(o)),
{
    let seg = page_segments(o);
    let before = seg[0] + bool_text(o.hide_agent) + seg[1] + bool_text(o.hide_mcp) + seg[2]
        + bool_text(o.hide_client_button) + seg[3] + bool_text(o.hide_clients) + ",\n            "@;
    let c = custom_css_entry(o);
    let after = ",\n        });\n    </script>\n</body>\n</html>\n"@;
    assert(scalar_page(o) =~= before + c + after);
    lemma_occurs_between(before, c, after);
}

/// Escapes `css` for a JavaScript template literal (see `template_escaped`).
pub fn escape_template_literal(css: &str) -> (r: String)
    ensures
        r@ == template_escaped(css@),
{
    let chars = chars_of(css);
    let backslash = vec!['\\'];
    let backslash_doubled = vec!['\\', '\\'];
    let backtick = vec!['`'];
    let backtick_escaped = vec!['\\', '`'];
    let interpolation = vec!['$', '{'];
    let interpolation_escaped = vec!['\\', '$', '{'];
    assert(backslash@ =~= seq!['\\']);
    assert(backslash_doubled@ =~= seq!['\\', '\\']);
    assert(backtick@ =~= seq!['`']);
    assert(backtick_escaped@ =~= seq!['\\', '`']);
    assert(interpolation@ =~= seq!['$', '{']);
    assert(interpolation_escaped@ =~= seq!['\\', '$', '{']);
    let once = replace_all(&chars, &backslash, &backslash_doubled);
    let twice = replace_all(&once, &backtick, &backtick_escaped);
    let thrice = replace_all(&twice, &interpolation, &interpolation_escaped);
    string_from_chars(&thrice)
}

fn bool_str(b: bool) -> (s: &'static str)
    ensures
        s@ == bool_text(b),
{
    if b {
        "true"
    } else {
        "false"
    }
}

/// `a`, `b` and `c` joined.
fn three(a: &str, b: &str, c: &str) -> (r: String)
    ensures
        r@ == a@ + b@ + c@,
{
    let mut r = String::from_str(a);
    r.append(b);
    r.append(c);
    r
}

fn color_scheme_str(opts: &ScalarOptions<'_>) -> (s: &'static str)
    ensures
        s@ == color_scheme_of(*opts),
{
    if opts.dark_mode {
        "dark"
    } else {
        "light"
    }
}

fn document_head_text(opts: &ScalarOptions<'_>) -> (r: String)
    ensures
        r@ == document_head(*opts),
{
    let dark_class = if opts.dark_mode { "dark-mode" } else { "" };
    let mut r = three("<!doctype html>\n<html class=\"", dark_class, "\">\n<head>\n    ");
    r.append(three("<title>", opts.title, "</title>").as_str());
    r.append(
        three(
            "\n    <meta charset=\"utf-8\"/>\n    <meta name=\"viewport\" content=\"width=device-width, initial-scale=1\"/>\n    <meta name=\"color-scheme\" content=\"",
            color_scheme_str(opts),
            "\"/>\n    ",
        ).as_str(),
    );
    r.append(three("<style>", opts.custom_css, "</style>").as_str());
    r.append("\n</head>\n");
    r
}

fn script_mode_text(opts: &ScalarOptions<'_>) -> (r: String)
    ensures
        r@ == script_mode(*opts),
{
    let mut r = String::from_str(",\n            theme: 'none',\n            darkMode: ");
    r.append(bool_str(opts.dark_mode));
    r.append(",\n            forceDarkModeState: '");
    r.append(color_scheme_str(opts));
    r.append("',\n            hideDarkModeToggle: ");
    r.append(bool_str(opts.dark_mode));
    r.append(",\n            withDefaultFonts: false,\n            agent: { disabled: ");
    r
}

fn script_opening_text(opts: &ScalarOptions<'_>) -> (r: String)
    ensures
        r@ == script_opening(*opts),
{
    let mut r = String::from_str(
        "<body>\n    <div id=\"app\"></div>\n    <script src=\"https://cdn.jsdelivr.net/npm/@scalar/api-reference\"></script>\n    <script>\n        Scalar.createApiReference('#app', {\n            ",
    );
    r.append(three("url: '", opts.openapi_url, "'").as_str());
    r.append(script_mode_text(opts).as_str());
    r
}

fn page_closing_text(opts: &ScalarOptions<'_>) -> (r: String)
    ensures
        r@ == page_segments(*opts)[4],
{
    let css_for_js = escape_template_literal(opts.custom_css);
    let mut r = String::from_str(",\n            ");
    r.append(three("customCss: `", css_for_js.as_str(), "`").as_str());
    r.append(",\n        });\n    </script>\n</body>\n</html>\n");
    r
}

/// Build a standalone Scalar HTML document for `GET /api/docs` (or similar).
pub fn scalar_html(opts: &ScalarOptions<'_>) -> (html: String)
    ensures
        html@ == scalar_page(*opts),
{
    let mut html = document_head_text(opts);
    html.append(script_opening_text(opts).as_str());
    assert(html@ == page_segments(*opts)[0]);
    html.append(bool_str(opts.hide_agent));
    html.append(" },\n            mcp: { disabled: ");
    html.append(bool_str(opts.hide_mcp));
    html.append(" },\n            hideClientButton: ");
    html.append(bool_str(opts.hide_client_button));
    html.append(",\n            hiddenClients: ");
    html.append(bool_str(opts.hide_clients));
    html.append(page_closing_text(opts).as_str());
    html
}

/// What a JavaScript template literal whose body is `t` evaluates to, for bodies whose
/// escapes are `\\`, `` \` `` and `\$`: a backslash stands for the character after it.
pub open spec fn template_literal_value(t: Seq<char>) -> Seq<char>
    decreases t.len(),
{
    if t.len() == 0 {
        t
    } else if t[0] == '\\' && t.len() >= 2 {
        seq![t[1]] + template_literal_value(t.skip(2))
    } else {
        seq![t[0]] + template_literal_value(t.skip(1))
    }
}

/// `t` can stand between the backticks of a template literal: every backslash escapes
/// the character after it, and no unescaped backtick or `${` occurs.
pub open spec fn template_safe(t: Seq<char>) -> bool
    decreases t.len(),
{
    if t.len() == 0 {
        true
    } else if t[0] == '\\' {
        t.len() >= 2 && template_safe(t.skip(2))
    } else {
        t[0] != '`' && !(t[0] == '$' && t.len() >= 2 && t[1] == '{') && template_safe(t.skip(1))
    }
}

/// The escaping done in one left-to-right pass.
spec fn escaped_in_one_pass(s: Seq<char>) -> Seq<char>
    decreases s.len(),
{
    if s.len() == 0 {
        s
    } else if s[0] == '\\' {
        seq!['\\', '\\'] + escaped_in_one_pass(s.skip(1))
    } else if s[0] == '`' {
        seq!['\\', '`'] + escaped_in_one_pass(s.skip(1))
    } else if s[0] == '$' && s.len() >= 2 && s[1] == '{' {
        seq!['\\', '$', '{'] + escaped_in_one_pass(s.skip(2))
    } else {
        seq![s[0]] + escaped_in_one_pass(s.skip(1))
    }
}

proof fn lemma_replaced_one_char_unfold(s: Seq<char>, p: char, rep: Seq<char>)
    requires
        s.len() > 0,
    ensures
        replaced(s, seq![p], rep) == (if s[0] == p { rep } else { seq![s[0]] }) + replaced(
            s.skip(1),
            seq![p],
            rep,
        ),
{
    assert(s.take(1) =~= seq![s[0]]);
    if s[0] != p {
        assert(s.take(1) != seq![p]) by {
            assert(s.take(1)[0] != seq![p][0]);
        }
    }
}

proof fn lemma_replaced_one_char_concat(a: Seq<char>, b: Seq<char>, p: char, rep: Seq<char>)
    ensures
        replaced(a + b, seq![p], rep) == replaced(a, seq![p], rep) + replaced(b, seq![p], rep),
    decreases a.len(),
{
    if a.len() == 0 {
        assert(a + b =~= b);
        assert(replaced(a, seq![p], rep) =~= Seq::<char>::empty());
        assert(replaced(a + b, seq![p], rep) =~= replaced(a, seq![p], rep) + replaced(
            b,
            seq![p],
            rep,
        ));
    } else {
        lemma_replaced_one_char_unfold(a + b, p, rep);
        lemma_replaced_one_char_unfold(a, p, rep);
        assert((a + b).skip(1) =~= a.skip(1) + b);
        lemma_replaced_one_char_concat(a.skip(1), b, p, rep);
        let head = if a[0] == p { rep } else { seq![a[0]] };
        assert(head + (replaced(a.skip(1), seq![p], rep) + replaced(b, seq![p], rep)) =~= (head
            + replaced(a.skip(1), seq![p], rep)) + replaced(b, seq![p], rep));
    }
}

spec fn interpolation() -> Seq<char> {
    seq!['$', '{']
}

spec fn interpolation_escaped() -> Seq<char> {
    seq!['\\', '$', '{']
}

proof fn lemma_replaced_interpolation_concat(a: Seq<char>, b: Seq<char>)
    requires
        a.len() == 0 || a.last() != '$',
    ensures
        replaced(a + b, interpolation(), interpolation_escaped()) == replaced(
            a,
            interpolation(),
            interpolation_escaped(),
        ) + replaced(b, interpolation(), interpolation_escaped()),
    decreases a.len(),
{
    let pat = interpolation();
    let rep = interpolation_escaped();
    if a.len() == 0 {
        assert(a + b =~= b);
        assert(replaced(a, pat, rep) =~= Seq::<char>::empty());
        assert(replaced(a + b, pat, rep) =~= replaced(a, pat, rep) + replaced(b, pat, rep));
    } else if a.len() == 1 {
        assert((a + b)[0] == a[0]);
        assert((a + b).len() >= 2 ==> (a + b).take(2) != pat) by {
            if (a + b).len() >= 2 {
                assert((a + b).take(2)[0] != pat[0]);
            }
        }
        assert((a + b).skip(1) =~= b);
        assert(replaced(a.skip(1), pat, rep) =~= Seq::<char>::empty());
        assert(replaced(a, pat, rep) =~= seq![a[0]]);
    } else {
        assert((a + b).take(2) =~= a.take(2));
        assert((a + b)[0] == a[0]);
        if a.take(2) == pat {
            assert((a + b).skip(2) =~= a.skip(2) + b);
            lemma_replaced_interpolation_concat(a.skip(2), b);
            assert(rep + (replaced(a.skip(2), pat, rep) + replaced(b, pat, rep)) =~= (rep
                + replaced(a.skip(2), pat, rep)) + replaced(b, pat, rep));
        } else {
            assert((a + b).skip(1) =~= a.skip(1) + b);
            lemma_replaced_interpolation_concat(a.skip(1), b);
            assert(seq![a[0]] + (replaced(a.skip(1), pat, rep) + replaced(b, pat, rep)) =~= (seq![
                a[0],
            ] + replaced(a.skip(1), pat, rep)) + replaced(b, pat, rep));
        }
    }
}

proof fn lemma_replaced_short(s: Seq<char>, pat: Seq<char>, rep: Seq<char>)
    requires
        s.len() < pat.len(),
    ensures
        replaced(s, pat, rep) == s,
    decreases s.len(),
{
    if s.len() > 0 {
        lemma_replaced_short(s.skip(1), pat, rep);
        assert(s =~= seq![s[0]] + s.skip(1));
    }
}

spec fn first_two_passes(s: Seq<char>) -> Seq<char> {
    replaced(replaced(s, seq!['\\'], seq!['\\', '\\']), seq!['`'], seq!['\\', '`'])
}

spec fn first_two_passes_head(c: char) -> Seq<char> {
    if c == '\\' {
        seq!['\\', '\\']
    } else if c == '`' {
        seq!['\\', '`']
    } else {
        seq![c]
    }
}

proof fn lemma_first_two_passes_unfold(s: Seq<char>)
    requires
        s.len() > 0,
    ensures
        first_two_passes(s) == first_two_passes_head(s[0]) + first_two_passes(s.skip(1)),
{
    let bs = seq!['\\'];
    let bs2 = seq!['\\', '\\'];
    let bt2 = seq!['\\', '`'];
    lemma_replaced_one_char_unfold(s, '\\', bs2);
    let head1 = if s[0] == '\\' { bs2 } else { seq![s[0]] };
    lemma_replaced_one_char_concat(head1, replaced(s.skip(1), bs, bs2), '`', bt2);
    if s[0] == '\\' {
        lemma_replaced_one_char_unfold(bs2, '`', bt2);
        lemma_replaced_one_char_unfold(bs2.skip(1), '`', bt2);
        assert(bs2.skip(1).skip(1) =~= Seq::<char>::empty());
        assert(replaced(bs2, seq!['`'], bt2) =~= bs2);
    } else {
        lemma_replaced_one_char_unfold(seq![s[0]], '`', bt2);
        assert(seq![s[0]].skip(1) =~= Seq::<char>::empty());
        if s[0] == '`' {
            assert(replaced(seq![s[0]], seq!['`'], bt2) =~= bt2);
        } else {
            assert(replaced(seq![s[0]], seq!['`'], bt2) =~= seq![s[0]]);
        }
    }
}

proof fn lemma_escape_is_one_pass(s: Seq<char>)
    ensures
        template_escaped(s) == escaped_in_one_pass(s),
    decreases s.len(),
{
    let pat = interpolation();
    let rep = interpolation_escaped();
    if s.len() == 0 {
        assert(replaced(s, seq!['\\'], seq!['\\', '\\']) == s);
        assert(first_two_passes(s) == s);
    } else {
        lemma_first_two_passes_unfold(s);
        let q = first_two_passes_head(s[0]);
        let rest = first_two_passes(s.skip(1));
        lemma_escape_is_one_pass(s.skip(1));
        if s[0] != '$' {
            lemma_replaced_interpolation_concat(q, rest);
            if s[0] == '\\' {
                assert(q.take(2) != pat) by {
                    assert(q.take(2)[0] != pat[0]);
                }
                lemma_replaced_short(q.skip(1), pat, rep);
                assert(q =~= seq![q[0]] + q.skip(1));
                assert(replaced(q, pat, rep) =~= seq!['\\', '\\']);
            } else if s[0] == '`' {
                assert(q.take(2) != pat) by {
                    assert(q.take(2)[0] != pat[0]);
                }
                lemma_replaced_short(q.skip(1), pat, rep);
                assert(q =~= seq![q[0]] + q.skip(1));
                assert(replaced(q, pat, rep) =~= seq!['\\', '`']);
            } else {
                lemma_replaced_short(q, pat, rep);
            }
        } else if s.len() >= 2 && s[1] == '{' {
            let s1 = s.skip(1);
            lemma_first_two_passes_unfold(s1);
            assert(s1.skip(1) =~= s.skip(2));
            lemma_escape_is_one_pass(s.skip(2));
            let rest2 = first_two_passes(s.skip(2));
            assert(q + rest =~= pat + rest2);
            assert((pat + rest2).take(2) =~= pat);
            assert((pat + rest2).skip(2) =~= rest2);
        } else {
            let whole = q + rest;
            assert(whole[0] == '$');
            if s.len() >= 2 {
                let s1 = s.skip(1);
                lemma_first_two_passes_unfold(s1);
                assert(rest[0] == first_two_passes_head(s1[0])[0]);
                assert(whole.take(2) != pat) by {
                    assert(whole.take(2)[1] == rest[0]);
                }
            } else {
                assert(s.skip(1) =~= Seq::<char>::empty());
                assert(replaced(s.skip(1), seq!['\\'], seq!['\\', '\\']) =~= Seq::<char>::empty());
                assert(rest =~= Seq::<char>::empty());
            }
            assert(whole.skip(1) =~= rest);
        }
    }
}

proof fn lemma_one_pass_head(s: Seq<char>)
    requires
        s.len() > 0,
    ensures
        escaped_in_one_pass(s).len() > 0,
        escaped_in_one_pass(s)[0] == '\\' || escaped_in_one_pass(s)[0] == s[0],
{
}

proof fn lemma_one_pass_decodes(s: Seq<char>)
    ensures
        template_literal_value(escaped_in_one_pass(s)) == s,
        template_safe(escaped_in_one_pass(s)),
    decreases s.len(),
{
    if s.len() > 0 {
        let e = escaped_in_one_pass(s);
        if s[0] == '\\' || s[0] == '`' {
            lemma_one_pass_decodes(s.skip(1));
            assert(e.skip(2) =~= escaped_in_one_pass(s.skip(1)));
            assert(s =~= seq![s[0]] + s.skip(1));
            assert(template_safe(e));
        } else if s[0] == '$' && s.len() >= 2 && s[1] == '{' {
            lemma_one_pass_decodes(s.skip(2));
            let tail = e.skip(2);
            assert(tail =~= seq!['{'] + escaped_in_one_pass(s.skip(2)));
            assert(tail.skip(1) =~= escaped_in_one_pass(s.skip(2)));
            assert(s =~= seq!['$', '{'] + s.skip(2));
            assert(template_literal_value(e) =~= seq!['$'] + template_literal_value(tail));
            assert(template_safe(tail));
            assert(template_safe(e));
        } else {
            lemma_one_pass_decodes(s.skip(1));
            assert(e.skip(1) =~= escaped_in_one_pass(s.skip(1)));
            assert(s =~= seq![s[0]] + s.skip(1));
            if s[0] == '$' && e.len() >= 2 {
                lemma_one_pass_head(s.skip(1));
                assert(e[1] == escaped_in_one_pass(s.skip(1))[0]);
            }
            assert(template_safe(e));
        }
    }
}

/// The custom CSS reaches Scalar unchanged: in the page's `customCss` template literal,
/// the escaped CSS evaluates to the CSS given, and nothing in it closes the literal or
/// opens an interpolation.
pub proof fn custom_css_survives_template_literal(css: Seq<char>)
    ensures
        template_literal_value(template_escaped(css)) == css,
        template_safe(template_escaped(css)),
{
    lemma_escape_is_one_pass(css);
    lemma_one_pass_decodes(css);
}

} // verus!
