//! The fixed shell around every page of the site.
use vstd::prelude::*;
use vstd::string::StringExecFns;

verus! {

/// Everything of a page that comes before its body block.
pub const HEADER: &'static str = "<!DOCTYPE html>
<html lang=\"en\">
<head>
  <meta charset=\"UTF-8\">
  <meta name=\"viewport\" content=\"width=device-width, initial-scale=1.0\">
  <title>Static Generator demo page</title>
  <link rel=\"stylesheet\" href=\"https://unpkg.com/@nekohack/normalize.css@1.2.1/dist/index.css\">
  </head>

";

/// Everything of a page that comes after its body block.
pub const FOOTER: &'static str = "

</html>
";

/// The part of the body block before the page's own content.
pub const BODY_OPEN: &'static str = "  <body>
    <header>
      <h1><a href=\"https://github.com/jiyuujin/static_generator\">Static Generator</a> demo page</h1>
    </header>
    <main>
      <section>
        <a href=\"/\">Home</a>
        <br />
        ";

/// The part of the body block after the page's own content.
pub const BODY_CLOSE: &'static str = "
      </section>
    </main>
  </body>";

/// The body block that holds the fragment `content`.
pub open spec fn body_of(content: Seq<char>) -> Seq<char> {
    BODY_OPEN@ + content + BODY_CLOSE@
}

/// The complete HTML document whose body block holds `content`.
pub open spec fn page_of(content: Seq<char>) -> Seq<char> {
    HEADER@ + body_of(content) + FOOTER@
}

/// Wraps an HTML fragment in the body block of the shell.
pub fn render_body(body: &str) -> (r: String)
    ensures
        r@ == body_of(body@),
{
    let mut s = String::from_str(BODY_OPEN);
    s.append(body);
    s.append(BODY_CLOSE);
    s
}

/// Wraps an HTML fragment in the whole shell: header, body block, footer.
pub fn compose_page(body: &str) -> (r: String)
    ensures
        r@ == page_of(body@),
{
    let mut s = String::from_str(HEADER);
    let b = render_body(body);
    s.append(b.as_str());
    s.append(FOOTER);
    proof {
        assert(s@ == HEADER@ + body_of(body@) + FOOTER@);
    }
    s
}

} // verus!
