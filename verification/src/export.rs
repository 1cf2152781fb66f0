//! Exports of a project: CSV of the requirements, and the HTML page that
//! carries the markdown rendering.
use vstd::prelude::*;

use crate::errors::ReqError;
use crate::model::{Project, Requirement};
use crate::text::{chars_of, join, join_seq, string_of, views};

verus! {

// ---------------------------------------------------------------------------
// CSV
// ---------------------------------------------------------------------------

/// `s` with every double quote doubled.
pub open spec fn doubled_quotes(s: Seq<char>) -> Seq<char>
    decreases s.len(),
{
    if s.len() == 0 {
        Seq::empty()
    } else {
        doubled_quotes(s.drop_last()) + if s.last() == '"' { seq!['"', '"'] } else { seq![s.last()] }
    }
}

/// A CSV field: quoted (with inner quotes doubled) when it holds a comma, a
/// quote or a newline; as it is otherwise.
pub open spec fn csv_field_spec(s: Seq<char>) -> Seq<char> {
    if s.contains(',') || s.contains('"') || s.contains('\n') {
        seq!['"'] + doubled_quotes(s) + seq!['"']
    } else {
        s
    }
}

/// Render one CSV field.
pub fn csv_field(s: &str) -> (r: String)
    ensures
        r@ == csv_field_spec(s@),
{
    let v = chars_of(s);
    let mut special = false;
    let mut i: usize = 0;
    while i < v.len()
        invariant
            i <= v@.len(),
            v@ == s@,
            special <==> exists|j: int| 0 <= j < i && (v@[j] == ',' || v@[j] == '"' || v@[j] == '\n'),
        decreases v@.len() - i,
    {
        if v[i] == ',' || v[i] == '"' || v[i] == '\n' {
            special = true;
        }
        i = i + 1;
    }
    assert(special <==> (s@.contains(',') || s@.contains('"') || s@.contains('\n'))) by {
        if s@.contains(',') {
            let j = choose|j: int| 0 <= j < s@.len() && s@[j] == ',';
            assert(v@[j] == ',');
        }
        if s@.contains('"') {
            let j = choose|j: int| 0 <= j < s@.len() && s@[j] == '"';
            assert(v@[j] == '"');
        }
        if s@.contains('\n') {
            let j = choose|j: int| 0 <= j < s@.len() && s@[j] == '\n';
            assert(v@[j] == '\n');
        }
        if special {
            let j = choose|j: int| 0 <= j < i && (v@[j] == ',' || v@[j] == '"' || v@[j] == '\n');
            assert(s@[j] == v@[j]);
        }
    }
    if !special {
        return string_of(&v);
    }
    let mut out: Vec<char> = Vec::new();
    out.push('"');
    let mut k: usize = 0;
    while k < v.len()
        invariant
            k <= v@.len(),
            v@ == s@,
            out@ == seq!['"'] + doubled_quotes(v@.take(k as int)),
        decreases v@.len() - k,
    {
        assert(v@.take(k + 1).drop_last() =~= v@.take(k as int));
        let c = v[k];
        if c == '"' {
            out.push('"');
            out.push('"');
        } else {
            out.push(c);
        }
        assert(out@ =~= seq!['"'] + doubled_quotes(v@.take(k + 1)));
        k = k + 1;
    }
    assert(v@.take(v@.len() as int) =~= v@);
    out.push('"');
    string_of(&out)
}

/// The header line of the CSV export.
pub open spec fn csv_header() -> Seq<char> {
    "id,title,kind,priority,status,tags,statement\n"@
}

/// One requirement's CSV line.
pub open spec fn csv_row(r: Requirement) -> Seq<char> {
    csv_field_spec(r.id@) + ","@ + csv_field_spec(r.title@) + ","@ + r.kind.name() + ","@
        + r.priority.name() + ","@ + r.status.name() + ","@
        + csv_field_spec(join_seq(views(r.tags@), "|"@)) + ","@ + csv_field_spec(r.statement@) + "\n"@
}

/// The CSV lines of `rs`, in order.
pub open spec fn csv_rows(rs: Seq<Requirement>) -> Seq<char>
    decreases rs.len(),
{
    if rs.len() == 0 {
        Seq::empty()
    } else {
        csv_rows(rs.drop_last()) + csv_row(rs.last())
    }
}

fn csv_line(r: &Requirement) -> (s: String)
    ensures
        s@ == csv_row(*r),
{
    let mut s = csv_field(r.id.as_str());
    s.append(",");
    s.append(csv_field(r.title.as_str()).as_str());
    s.append(",");
    s.append(r.kind.as_str());
    s.append(",");
    s.append(r.priority.as_str());
    s.append(",");
    s.append(r.status.as_str());
    s.append(",");
    let tags = join(&r.tags, "|");
    s.append(csv_field(tags.as_str()).as_str());
    s.append(",");
    s.append(csv_field(r.statement.as_str()).as_str());
    s.append("\n");
    s
}

/// The requirements as CSV: a header, then one line per requirement in id
/// order.
pub fn to_csv(p: &Project) -> (r: Result<String, ReqError>)
    ensures
        r is Ok && r->Ok_0@ == csv_header() + csv_rows(p.requirements.view()),
{
    let mut out = string_of(&chars_of("id,title,kind,priority,status,tags,statement\n"));
    let ghost s = p.requirements.view();
    let n = p.requirements.len();
    let mut i: usize = 0;
    while i < n
        invariant
            n == s.len(),
            s == p.requirements.view(),
            i <= n,
            out@ == csv_header() + csv_rows(s.take(i as int)),
        decreases n - i,
    {
        assert(s.take(i + 1).drop_last() =~= s.take(i as int));
        assert(s.take(i + 1).last() == s[i as int]);
        let line = csv_line(p.requirements.at(i));
        out.append(line.as_str());
        assert(out@ =~= csv_header() + csv_rows(s.take(i + 1)));
        i = i + 1;
    }
    assert(s.take(n as int) =~= s);
    Ok(out)
}

// ---------------------------------------------------------------------------
// HTML
// ---------------------------------------------------------------------------

/// `s` with `&`, `<` and `>` escaped as HTML entities.
pub open spec fn html_escaped(s: Seq<char>) -> Seq<char>
    decreases s.len(),
{
    if s.len() == 0 {
        Seq::empty()
    } else {
        html_escaped(s.drop_last()) + if s.last() == '&' {
            "&amp;"@
        } else if s.last() == '<' {
            "&lt;"@
        } else if s.last() == '>' {
            "&gt;"@
        } else {
            seq![s.last()]
        }
    }
}

/// Escape text for HTML.
pub fn html_escape(s: &str) -> (r: String)
    ensures
        r@ == html_escaped(s@),
{
    let v = chars_of(s);
    let mut out = String::new();
    let mut k: usize = 0;
    while k < v.len()
        invariant
            k <= v@.len(),
            v@ == s@,
            out@ == html_escaped(v@.take(k as int)),
        decreases v@.len() - k,
    {
        assert(v@.take(k + 1).drop_last() =~= v@.take(k as int));
        let c = v[k];
        if c == '&' {
            out.append("&amp;");
        } else if c == '<' {
            out.append("&lt;");
        } else if c == '>' {
            out.append("&gt;");
        } else {
            crate::text::push_char(&mut out, c);
        }
        assert(out@ =~= html_escaped(v@.take(k + 1)));
        k = k + 1;
    }
    assert(v@.take(v@.len() as int) =~= v@);
    out
}

/// The page head up to the title, between the title and the body, and
/// after the body.
pub open spec fn page_open() -> Seq<char> {
    "<!doctype html><html><head><meta charset=\"utf-8\"><title>"@
}

pub open spec fn page_middle() -> Seq<char> {
    "</title><style>body{font-family:system-ui,sans-serif;max-width:48rem;margin:2rem auto;padding:0 1rem;line-height:1.5;color:#222}h1,h2{border-bottom:1px solid #ddd;padding-bottom:.3rem}code{background:#f4f4f4;padding:.1rem .3rem;border-radius:3px}</style></head><body><pre style=\"white-space:pre-wrap;font-family:inherit\">"@
}

pub open spec fn page_close() -> Seq<char> {
    "</pre></body></html>"@
}

/// The HTML export: the project's markdown rendering, escaped, in a
/// preformatted block under the project's name.
pub fn to_html_ctx(p: &Project, markdown: &str) -> (r: String)
    ensures
        r@ == page_open() + html_escaped(p.name@) + page_middle() + html_escaped(markdown@) + page_close(),
{
    let mut out = String::new();
    out.append("<!doctype html><html><head><meta charset=\"utf-8\"><title>");
    out.append(html_escape(p.name.as_str()).as_str());
    out.append("</title><style>body{font-family:system-ui,sans-serif;max-width:48rem;margin:2rem auto;padding:0 1rem;line-height:1.5;color:#222}h1,h2{border-bottom:1px solid #ddd;padding-bottom:.3rem}code{background:#f4f4f4;padding:.1rem .3rem;border-radius:3px}</style></head><body><pre style=\"white-space:pre-wrap;font-family:inherit\">");
    out.append(html_escape(markdown).as_str());
    out.append("</pre></body></html>");
    out
}

} // verus!
