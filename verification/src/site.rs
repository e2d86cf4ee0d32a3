//! The page the service answers at its console routes when the built
//! console is missing.
use vstd::prelude::*;
use crate::text::push_lit;

verus! {

/// The start of the fallback page, up to the service name in the title.
pub const PAGE_HEAD: &'static str = r#"<!doctype html>
<html lang="en">
  <head>
    <meta charset="utf-8" />
    <meta name="viewport" content="width=device-width, initial-scale=1" />
    <title>"#;

/// The fallback page between the title's name and the heading's name.
pub const PAGE_TITLE_END: &'static str = r#" service</title>
    <style>
      body { font-family: ui-sans-serif, system-ui, sans-serif; margin: 0; background: #f5f7fb; color: #162033; }
      main { max-width: 860px; margin: 64px auto; padding: 0 24px; }
      section { background: white; border-radius: 18px; padding: 28px; box-shadow: 0 12px 32px rgba(22,32,51,.08); }
      code { background: #eef3ff; padding: 2px 6px; border-radius: 6px; }
      a { color: #145af2; text-decoration: none; }
      ul { line-height: 1.8; }
    </style>
  </head>
  <body>
    <main>
      <section>
        <h1>"#;

/// The fallback page between the heading's name and the console directory.
pub const PAGE_BODY: &'static str = r#" service is running</h1>
        <p>The server serves the built Dioxus console by default, adds security response headers, rate-limits public feed requests separately from login, and keeps the existing CSRF, proxy trust, and SSRF protections in place.</p>
        <ul>
          <li><code>GET /healthz</code></li>
          <li><code>GET /api/meta/app</code></li>
          <li><code>GET /api/auth/csrf</code></li>
          <li><code>POST /api/auth/login</code></li>
          <li><code>GET /api/users</code></li>
          <li><code>GET /api/users/{username}/diagnostics</code></li>
          <li><code>GET /api/users/{username}/cache</code></li>
          <li><code>GET /{username}</code></li>
        </ul>
        <p>If the Dioxus frontend has been built into <code>"#;

/// The end of the fallback page.
pub const PAGE_TAIL: &'static str = r#"</code>, this route will serve it automatically.</p>
      </section>
    </main>
  </body>
</html>"#;

/// The fallback page for service `name` whose console would be built into
/// `dist`.
pub fn fallback_index_html(name: &str, dist: &str) -> (r: String)
    ensures
        r@ == PAGE_HEAD@ + name@ + PAGE_TITLE_END@ + name@ + PAGE_BODY@ + dist@ + PAGE_TAIL@,
{
    let mut s = String::new();
    push_lit(&mut s, PAGE_HEAD);
    push_lit(&mut s, name);
    push_lit(&mut s, PAGE_TITLE_END);
    push_lit(&mut s, name);
    push_lit(&mut s, PAGE_BODY);
    push_lit(&mut s, dist);
    push_lit(&mut s, PAGE_TAIL);
    s
}

} // verus!
