//! A small text browser: HTML digestion, tabs, history and bookmarks.
//! Fetching pages is plain network I/O and lives with the caller; a tab is
//! handed the fetched body and parses it here.

use vstd::prelude::*;
use vstd::string::StringExecFns;
use crate::strutil::{
    chars_of,
    string_of,
    str_eq,
    starts_with,
    find_sub,
    trim_str,
    replace_all,
    spec_find,
    spec_trim,
    spec_replace,
    spec_has_prefix,
};

verus! {

#[derive(Debug)]
pub enum BrowserError {
    NetworkError(String),
    ParseError(String),
    InvalidUrl(String),
    IoError(String),
}

impl BrowserError {
    pub fn message(&self) -> (r: String)
        ensures
            (match self {
                BrowserError::NetworkError(s) => r@ == "Network error: "@ + s@,
                BrowserError::ParseError(s) => r@ == "Parse error: "@ + s@,
                BrowserError::InvalidUrl(s) => r@ == "Invalid URL: "@ + s@,
                BrowserError::IoError(s) => r@ == "IO error: "@ + s@,
            }),
    {
        match self {
            BrowserError::NetworkError(s) => "Network error: ".to_owned().concat(s.as_str()),
            BrowserError::ParseError(s) => "Parse error: ".to_owned().concat(s.as_str()),
            BrowserError::InvalidUrl(s) => "Invalid URL: ".to_owned().concat(s.as_str()),
            BrowserError::IoError(s) => "IO error: ".to_owned().concat(s.as_str()),
        }
    }
}

/// A parsed page: title, visible text, links and image sources.
pub struct HtmlContent {
    pub title: String,
    pub text: String,
    pub links: Vec<Link>,
    pub images: Vec<String>,
}

/// One hyperlink: its anchor text and target.
pub struct Link {
    pub text: String,
    pub href: String,
}

/// The page title: what stands between the first `<title>` and the first
/// `</title>`, trimmed — or `Untitled`.
pub open spec fn spec_extract_title(h: Seq<char>) -> Seq<char> {
    let st = spec_find(h, "<title>"@);
    let en = spec_find(h, "</title>"@);
    if st is Some && en is Some && st->0 + 7 <= en->0 {
        spec_trim(h.subrange(st->0 + 7, en->0))
    } else {
        "Untitled"@
    }
}

/// The entity decoding pass: the seven named entities, replaced in a fixed
/// order.
pub open spec fn spec_decode_entities(t: Seq<char>) -> Seq<char> {
    let t1 = spec_replace(t, "&lt;"@, "<"@);
    let t2 = spec_replace(t1, "&gt;"@, ">"@);
    let t3 = spec_replace(t2, "&amp;"@, "&"@);
    let t4 = spec_replace(t3, "&quot;"@, "\""@);
    let t5 = spec_replace(t4, "&apos;"@, "'"@);
    let t6 = spec_replace(t5, "&#39;"@, "'"@);
    spec_replace(t6, "&nbsp;"@, " "@)
}

/// Validation rule for fetchable addresses.
pub open spec fn spec_url_ok(u: Seq<char>) -> bool {
    spec_has_prefix(u, "http://"@) || spec_has_prefix(u, "https://"@)
}

/// Issues page fetches; the network transfer itself is done by the caller
/// of the library, against `validate_url`.
pub struct HttpClient {
    pub user_agent: String,
}

impl HttpClient {
    pub fn new() -> (r: HttpClient)
        ensures
            r.user_agent@ == "LucAstra-Browser/1.0"@,
    {
        HttpClient { user_agent: "LucAstra-Browser/1.0".to_owned() }
    }

    /// Rejects addresses that name neither the `http` nor the `https`
    /// scheme, exactly as a fetch would.
    pub fn validate_url(&self, url: &str) -> (r: Result<(), BrowserError>)
        ensures
            r.is_ok() <==> spec_url_ok(url@),
            r.is_err() ==> (r matches Err(BrowserError::InvalidUrl(m))
                && m@ == "URL must start with http:// or https://"@),
    {
        if starts_with(url, "http://") || starts_with(url, "https://") {
            Ok(())
        } else {
            Err(BrowserError::InvalidUrl("URL must start with http:// or https://".to_owned()))
        }
    }
}

/// A quoted value at position `q` of the page: an opening quote, the
/// value (free of that quote character), and the matching closing quote.
pub open spec fn spec_quoted_at(h: Seq<char>, q: int, v: Seq<char>) -> bool {
    &&& 0 <= q
    &&& q + 1 + v.len() < h.len()
    &&& (h[q] == '"' || h[q] == '\'')
    &&& h.subrange(q + 1, q + 1 + v.len() as int) == v
    &&& h[q + 1 + v.len()] == h[q]
    &&& (forall|t: int| q < t < q + 1 + v.len() ==> h[t] != h[q])
}

/// `v` stands in the page as the quoted value of the attribute
/// introducer `attr` (such as `href=` or `src=`).
pub open spec fn spec_attr_value(h: Seq<char>, attr: Seq<char>, v: Seq<char>) -> bool {
    exists|j: int|
        #![trigger h.subrange(j, j + attr.len() as int)]
        0 <= j && j + attr.len() <= h.len() && h.subrange(j, j + attr.len() as int) == attr
            && spec_quoted_at(h, j + attr.len() as int, v)
}

/// What the link scanner promises of each collected link: the target is a
/// quoted `href=` value of the page, and the text is the trimmed span that
/// runs up to the closing `</a>` without crossing a tag.
pub open spec fn spec_link_of(h: Seq<char>, l: Link) -> bool {
    &&& spec_attr_value(h, "href="@, l.href@)
    &&& exists|e: int, k: int|
        #![auto]
        0 <= e <= k && k + 4 <= h.len() && h.subrange(k, k + 4) == "</a>"@ && l.text@
            == spec_trim(h.subrange(e, k)) && (forall|t: int| e <= t < k ==> h[t] != '<')
}

/// Digests fetched HTML into title, text, links and images.
pub struct HtmlParser;

impl HtmlParser {
    /// Parses a page.  The title is extracted exactly as
    /// `spec_extract_title` says; every collected link and image source is
    /// a quoted `href=`/`src=` attribute value of the page (the visible
    /// text comes from the best-effort scanner below).
    pub fn parse(html: &str) -> (r: HtmlContent)
        ensures
            r.title@ == spec_extract_title(html@),
            forall|k: int| 0 <= k < r.links@.len() ==> spec_link_of(html@, #[trigger] r.links@[k]),
            forall|k: int|
                0 <= k < r.images@.len() ==> spec_attr_value(
                    html@,
                    "src="@,
                    (#[trigger] r.images@[k])@,
                ),
    {
        let title = Self::extract_title(html);
        let text = Self::extract_text(html);
        let links = Self::extract_links(html);
        let images = Self::extract_images(html);
        HtmlContent { title, text, links, images }
    }

    /// The text between the first `<title>` and `</title>` tags, trimmed.
    pub fn extract_title(html: &str) -> (r: String)
        ensures
            r@ == spec_extract_title(html@),
    {
        let st = find_sub(html, "<title>");
        let en = find_sub(html, "</title>");
        match (st, en) {
            (Some(s0), Some(e0)) => {
                let cs = chars_of(html);
                proof {
                    crate::strutil::lemma_find_some(html@, "<title>"@, 0);
                    crate::strutil::lemma_find_some(html@, "</title>"@, 0);
                    reveal_strlit("<title>");
                    reveal_strlit("</title>");
                    assert(s0 + 7 <= cs@.len() && e0 + 8 <= cs@.len());
                }
                if e0 >= 7 && s0 <= e0 - 7 {
                    assert(s0 + 7 <= e0);
                    let mut mid: Vec<char> = Vec::new();
                    let mut i: usize = s0 + 7;
                    while i < e0
                        invariant
                            s0 + 7 <= i <= e0,
                            e0 <= cs@.len(),
                            cs@ == html@,
                            mid@ == html@.subrange(s0 + 7, i as int),
                        decreases e0 - i,
                    {
                        mid.push(cs[i]);
                        assert(mid@ =~= html@.subrange(s0 + 7, i + 1));
                        i += 1;
                    }
                    let mids = string_of(&mid);
                    trim_str(mids.as_str())
                } else {
                    assert(!(s0 + 7 <= e0));
                    "Untitled".to_owned()
                }
            },
            _ => "Untitled".to_owned(),
        }
    }

    /// Decodes the seven supported named entities.
    pub fn decode_entities(text: &str) -> (r: String)
        ensures
            r@ == spec_decode_entities(text@),
    {
        proof {
            reveal_strlit("&lt;");
            reveal_strlit("&gt;");
            reveal_strlit("&amp;");
            reveal_strlit("&quot;");
            reveal_strlit("&apos;");
            reveal_strlit("&#39;");
            reveal_strlit("&nbsp;");
        }
        let t1 = replace_all(text, "&lt;", "<");
        let t2 = replace_all(t1.as_str(), "&gt;", ">");
        let t3 = replace_all(t2.as_str(), "&amp;", "&");
        let t4 = replace_all(t3.as_str(), "&quot;", "\"");
        let t5 = replace_all(t4.as_str(), "&apos;", "'");
        let t6 = replace_all(t5.as_str(), "&#39;", "'");
        replace_all(t6.as_str(), "&nbsp;", " ")
    }

    /// Strips tags and script/style blocks line by line, decodes
    /// entities, and joins the trimmed non-empty lines.
    fn extract_text(html: &str) -> String {
        let cs = chars_of(html);
        let n = cs.len();
        let mut raw: Vec<char> = Vec::new();
        let mut in_tag = false;
        let mut in_script = false;
        let mut in_style = false;
        let mut line_start: usize = 0;
        let mut i: usize = 0;
        while i < n
            invariant
                line_start <= i <= n,
                n == cs@.len(),
            decreases n - i,
        {
            if cs[i] == '\n' {
                Self::text_line(
                    &cs,
                    line_start,
                    i,
                    &mut raw,
                    &mut in_tag,
                    &mut in_script,
                    &mut in_style,
                );
                line_start = i + 1;
            }
            i += 1;
        }
        if line_start < n {
            Self::text_line(
                &cs,
                line_start,
                n,
                &mut raw,
                &mut in_tag,
                &mut in_script,
                &mut in_style,
            );
        }
        let decoded = Self::decode_entities(string_of(&raw).as_str());
        // Trim every line and keep the non-empty ones.
        let dc = chars_of(decoded.as_str());
        let m = dc.len();
        let mut out: Vec<char> = Vec::new();
        let mut first = true;
        let mut lstart: usize = 0;
        let mut p: usize = 0;
        while p < m
            invariant
                lstart <= p <= m,
                m == dc@.len(),
            decreases m - p,
        {
            if dc[p] == '\n' {
                Self::keep_line(&dc, lstart, p, &mut out, &mut first);
                lstart = p + 1;
            }
            p += 1;
        }
        if lstart < m {
            Self::keep_line(&dc, lstart, m, &mut out, &mut first);
        }
        string_of(&out)
    }

    /// Strips tags from one source line, honouring script/style state.
    fn text_line(
        cs: &Vec<char>,
        start: usize,
        end: usize,
        raw: &mut Vec<char>,
        in_tag: &mut bool,
        in_script: &mut bool,
        in_style: &mut bool,
    )
        requires
            start <= end <= cs@.len(),
    {
        let mut line: Vec<char> = Vec::new();
        let mut j: usize = start;
        while j < end
            invariant
                start <= j <= end,
                end <= cs@.len(),
            decreases end - j,
        {
            line.push(cs[j]);
            j += 1;
        }
        let ls = string_of(&line);
        if crate::strutil::contains_sub(ls.as_str(), "<script") {
            *in_script = true;
        }
        let had_close_script = crate::strutil::contains_sub(ls.as_str(), "</script>");
        if crate::strutil::contains_sub(ls.as_str(), "<style") {
            *in_style = true;
        }
        let had_close_style = crate::strutil::contains_sub(ls.as_str(), "</style>");
        let skip_line = *in_script || *in_style;
        if had_close_script {
            *in_script = false;
        }
        if had_close_style {
            *in_style = false;
        }
        if !skip_line {
            let mut k: usize = 0;
            while k < line.len()
                decreases line@.len() - k,
            {
                let c = line[k];
                if c == '<' {
                    *in_tag = true;
                } else if c == '>' {
                    *in_tag = false;
                    if raw.len() == 0 || raw[raw.len() - 1] != '\n' {
                        raw.push(' ');
                    }
                } else if !*in_tag {
                    raw.push(c);
                }
                k += 1;
            }
            raw.push('\n');
        }
    }

    /// Appends one decoded line, trimmed, if anything remains of it.
    fn keep_line(dc: &Vec<char>, start: usize, end: usize, out: &mut Vec<char>, first: &mut bool)
        requires
            start <= end <= dc@.len(),
    {
        let mut line: Vec<char> = Vec::new();
        let mut q: usize = start;
        while q < end
            invariant
                start <= q <= end,
                end <= dc@.len(),
            decreases end - q,
        {
            line.push(dc[q]);
            q += 1;
        }
        let trimmed = trim_str(string_of(&line).as_str());
        let tc = chars_of(trimmed.as_str());
        if tc.len() > 0 {
            if !*first {
                out.push('\n');
            }
            let mut q2: usize = 0;
            while q2 < tc.len()
                decreases tc@.len() - q2,
            {
                out.push(tc[q2]);
                q2 += 1;
            }
            *first = false;
        }
    }

    /// Reads a quoted attribute value beginning at `i` (which must point
    /// at the opening quote); returns the value and the position after
    /// the closing quote.
    fn read_quoted(cs: &Vec<char>, i: usize) -> (r: Option<(String, usize)>)
        ensures
            (match r {
                Some(p) => i < p.1 <= cs@.len() && spec_quoted_at(cs@, i as int, p.0@),
                None => true,
            }),
    {
        let n = cs.len();
        if i >= n {
            return None;
        }
        let quote = cs[i];
        if quote != '"' && quote != '\'' {
            return None;
        }
        let mut j = i + 1;
        let mut val: Vec<char> = Vec::new();
        while j < n
            invariant
                i < j <= n,
                n == cs@.len(),
                cs@[i as int] == quote,
                quote == '"' || quote == '\'',
                val@ == cs@.subrange(i + 1, j as int),
                forall|t: int| i < t < j ==> cs@[t] != quote,
            decreases n - j,
        {
            let c = cs[j];
            if c == quote {
                proof {
                    assert(cs@.subrange(i + 1, i + 1 + val@.len() as int) =~= val@);
                }
                return Some((string_of(&val), j + 1));
            }
            val.push(c);
            assert(val@ =~= cs@.subrange(i + 1, j + 1));
            j += 1;
        }
        None
    }

    /// Collects `href` targets and anchor texts of simple `<a>` tags:
    /// every collected link satisfies `spec_link_of`.
    fn extract_links(html: &str) -> (r: Vec<Link>)
        ensures
            forall|k: int| 0 <= k < r@.len() ==> spec_link_of(html@, #[trigger] r@[k]),
    {
        let cs = chars_of(html);
        let n = cs.len();
        let mut links: Vec<Link> = Vec::new();
        let mut i: usize = 0;
        while i < n
            invariant
                i <= n,
                n == cs@.len(),
                cs@ == html@,
                forall|k: int| 0 <= k < links@.len() ==> spec_link_of(html@, #[trigger] links@[k]),
            decreases n - i,
        {
            // Look for "<a" followed by whitespace.
            if cs[i] == '<' && n - i > 2 && cs[i + 1] == 'a' && (cs[i + 2] == ' ' || cs[i
                + 2] == '\t' || cs[i + 2] == '\n') {
                // Scan inside the tag for href= up to the closing '>'.
                let mut j = i + 3;
                let mut href: Option<String> = None;
                let mut tag_end: Option<usize> = None;
                while j < n
                    invariant
                        i + 3 <= j <= n,
                        n == cs@.len(),
                        cs@ == html@,
                        (match tag_end {
                            Some(e) => i < e <= n,
                            None => true,
                        }),
                        (match href {
                            Some(h) => spec_attr_value(html@, "href="@, h@),
                            None => true,
                        }),
                    decreases n - j,
                {
                    if cs[j] == '>' {
                        tag_end = Some(j + 1);
                        j = n;
                    } else if cs[j] == 'h' && n - j >= 5 && cs[j + 1] == 'r' && cs[j + 2] == 'e'
                        && cs[j + 3] == 'f' && cs[j + 4] == '=' {
                        let got = Self::read_quoted(&cs, j + 5);
                        match got {
                            Some((v, after)) => {
                                proof {
                                    reveal_strlit("href=");
                                    assert(html@.subrange(j as int, j + 5) =~= "href="@);
                                    assert(spec_attr_value(html@, "href="@, v@));
                                }
                                href = Some(v);
                                j = after;
                            },
                            None => {
                                j += 1;
                            },
                        }
                    } else {
                        j += 1;
                    }
                }
                match (href, tag_end) {
                    (Some(h), Some(e)) => {
                        // Anchor text runs to the next '<'.
                        let mut k = e;
                        let mut txt: Vec<char> = Vec::new();
                        while k < n && cs[k] != '<'
                            invariant
                                e <= k <= n,
                                n == cs@.len(),
                                cs@ == html@,
                                txt@ == html@.subrange(e as int, k as int),
                                forall|t: int| e <= t < k ==> html@[t] != '<',
                            decreases n - k,
                        {
                            txt.push(cs[k]);
                            assert(txt@ =~= html@.subrange(e as int, k + 1));
                            k += 1;
                        }
                        // Count the link only for a properly closed anchor.
                        if k < n && n - k >= 4 && cs[k] == '<' && cs[k + 1] == '/' && cs[k + 2]
                            == 'a' && cs[k + 3] == '>' {
                            let t = trim_str(string_of(&txt).as_str());
                            let ghost links0 = links@;
                            let ghost gl = Link { text: t, href: h };
                            proof {
                                reveal_strlit("</a>");
                                assert(html@.subrange(k as int, k + 4) =~= "</a>"@);
                                assert(gl.text@ == spec_trim(html@.subrange(e as int, k as int)));
                                assert(spec_link_of(html@, gl));
                            }
                            links.push(Link { text: t, href: h });
                            proof {
                                assert(links@ =~= links0.push(gl));
                            }
                            i = k + 4;
                        } else {
                            i = e;
                        }
                    },
                    _ => {
                        i += 1;
                    },
                }
            } else {
                i += 1;
            }
        }
        links
    }

    /// Collects the `src` targets of `<img>` tags: every collected source
    /// is a quoted `src=` attribute value of the page.
    fn extract_images(html: &str) -> (r: Vec<String>)
        ensures
            forall|k: int|
                0 <= k < r@.len() ==> spec_attr_value(html@, "src="@, (#[trigger] r@[k])@),
    {
        let cs = chars_of(html);
        let n = cs.len();
        let mut images: Vec<String> = Vec::new();
        let mut i: usize = 0;
        while i < n
            invariant
                i <= n,
                n == cs@.len(),
                cs@ == html@,
                forall|k: int|
                    0 <= k < images@.len() ==> spec_attr_value(
                        html@,
                        "src="@,
                        (#[trigger] images@[k])@,
                    ),
            decreases n - i,
        {
            if cs[i] == '<' && n - i > 4 && cs[i + 1] == 'i' && cs[i + 2] == 'm' && cs[i + 3]
                == 'g' && (cs[i + 4] == ' ' || cs[i + 4] == '\t' || cs[i + 4] == '\n') {
                let mut j = i + 5;
                let mut advanced: Option<usize> = None;
                while j < n
                    invariant
                        i + 5 <= j <= n,
                        n == cs@.len(),
                        cs@ == html@,
                        (match advanced {
                            Some(a) => i < a <= n,
                            None => true,
                        }),
                        forall|k: int|
                            0 <= k < images@.len() ==> spec_attr_value(
                                html@,
                                "src="@,
                                (#[trigger] images@[k])@,
                            ),
                    decreases n - j,
                {
                    if cs[j] == '>' {
                        advanced = Some(j + 1);
                        j = n;
                    } else if cs[j] == 's' && n - j >= 4 && cs[j + 1] == 'r' && cs[j + 2] == 'c'
                        && cs[j + 3] == '=' {
                        let got = Self::read_quoted(&cs, j + 4);
                        match got {
                            Some((v, after)) => {
                                let ghost images0 = images@;
                                let ghost gv = v;
                                proof {
                                    reveal_strlit("src=");
                                    assert(html@.subrange(j as int, j + 4) =~= "src="@);
                                    assert(spec_attr_value(html@, "src="@, gv@));
                                }
                                images.push(v);
                                proof {
                                    assert(images@ =~= images0.push(gv));
                                }
                                j = after;
                            },
                            None => {
                                j += 1;
                            },
                        }
                    } else {
                        j += 1;
                    }
                }
                match advanced {
                    Some(a) => {
                        i = a;
                    },
                    None => {
                        i = n;
                    },
                }
            } else {
                i += 1;
            }
        }
        images
    }
}

/// One browser tab: its address, content, and back history.
pub struct Tab {
    pub url: String,
    pub content: Option<HtmlContent>,
    pub history: Vec<String>,
}

impl Tab {
    pub fn new(url: String) -> (r: Tab)
        ensures
            r.url@ == url@,
            r.content is None,
            r.history@.len() == 0,
    {
        Tab { url, content: None, history: Vec::new() }
    }

    /// Takes the fetched body of `url`, parses it, pushes the old address
    /// onto the history and moves to the new one.
    pub fn load(&mut self, url: String, html: &str)
        ensures
            final(self).url@ == url@,
            final(self).content matches Some(c) && c.title@ == spec_extract_title(html@),
            final(self).history@.len() == old(self).history@.len() + 1,
            final(self).history@[0]@ == old(self).url@,
            forall|i: int|
                1 <= i < final(self).history@.len() ==> #[trigger] final(self).history@[i]
                    == old(self).history@[i - 1],
    {
        let content = HtmlParser::parse(html);
        let old_url = self.url.clone();
        self.url = url;
        self.history.insert(0, old_url);
        self.content = Some(content);
    }

    /// The address a back step would return to, if any.
    pub fn back_target(&self) -> (r: Option<&String>)
        ensures
            (match r {
                Some(u) => self.history@.len() > 0 && u@ == self.history@[0]@,
                None => self.history@.len() == 0,
            }),
    {
        if self.history.len() > 0 {
            Some(&self.history[0])
        } else {
            None
        }
    }

    /// Goes back: pops the most recent history entry and loads the
    /// fetched body of that address.  Without history, nothing changes.
    pub fn back(&mut self, html: &str)
        ensures
            old(self).history@.len() == 0 ==> *final(self) == *old(self),
            old(self).history@.len() > 0 ==> {
                &&& final(self).url@ == old(self).history@[0]@
                &&& final(self).content matches Some(c) && c.title@ == spec_extract_title(html@)
                &&& final(self).history@.len() == old(self).history@.len()
                &&& final(self).history@[0]@ == old(self).url@
            },
    {
        if self.history.len() > 0 {
            let prev = self.history.remove(0);
            self.load(prev, html);
        }
    }
}

/// Browser state: tabs, the active tab, and bookmarks.
pub struct Browser {
    pub tabs: Vec<Tab>,
    pub active_tab: usize,
    pub bookmarks: Vec<String>,
}

impl Browser {
    /// One blank tab, active, with no bookmarks.
    pub fn new() -> (r: Browser)
        ensures
            r.tabs@.len() == 1,
            r.tabs@[0].url@ == "about:blank"@,
            r.active_tab == 0,
            r.bookmarks@.len() == 0,
    {
        let mut tabs: Vec<Tab> = Vec::new();
        tabs.push(Tab::new("about:blank".to_owned()));
        Browser { tabs, active_tab: 0, bookmarks: Vec::new() }
    }

    /// The active tab, if the index is in range.
    pub fn current_tab(&self) -> (r: Option<&Tab>)
        ensures
            (match r {
                Some(t) => self.active_tab < self.tabs@.len() && *t == self.tabs@[
                    self.active_tab as int],
                None => self.active_tab >= self.tabs@.len(),
            }),
    {
        if self.active_tab < self.tabs.len() {
            Some(&self.tabs[self.active_tab])
        } else {
            None
        }
    }

    /// The active tab for mutation, if the index is in range.
    pub fn current_tab_mut(&mut self) -> (r: Option<&mut Tab>) {
        if self.active_tab < self.tabs.len() {
            Some(&mut self.tabs[self.active_tab])
        } else {
            None
        }
    }

    /// Opens a fresh tab on `url` — no content, no history — and makes
    /// it active.
    pub fn new_tab(&mut self, url: String)
        ensures
            final(self).tabs@.len() == old(self).tabs@.len() + 1,
            final(self).tabs@.last().url@ == url@,
            final(self).tabs@.last().content is None,
            final(self).tabs@.last().history@.len() == 0,
            final(self).active_tab == final(self).tabs@.len() - 1,
            final(self).bookmarks@ == old(self).bookmarks@,
            forall|i: int|
                0 <= i < old(self).tabs@.len() ==> #[trigger] final(self).tabs@[i] == old(
                    self,
                ).tabs@[i],
    {
        self.tabs.push(Tab::new(url));
        self.active_tab = self.tabs.len() - 1;
    }

    /// Closes the active tab, keeping at least one open; the active index
    /// is clamped into range.
    pub fn close_tab(&mut self)
        ensures
            (old(self).tabs@.len() <= 1 || old(self).active_tab >= old(self).tabs@.len())
                ==> *final(self) == *old(self),
            (old(self).tabs@.len() > 1 && old(self).active_tab < old(self).tabs@.len()) ==> {
                &&& final(self).tabs@ == old(self).tabs@.remove(old(self).active_tab as int)
                &&& final(self).active_tab == if old(self).active_tab
                    >= final(self).tabs@.len() {
                    (final(self).tabs@.len() - 1) as usize
                } else {
                    old(self).active_tab
                }
            },
            final(self).bookmarks@ == old(self).bookmarks@,
    {
        if self.tabs.len() > 1 && self.active_tab < self.tabs.len() {
            self.tabs.remove(self.active_tab);
            if self.active_tab >= self.tabs.len() {
                self.active_tab = self.tabs.len() - 1;
            }
        }
    }

    /// Switches to the tab at `index`, ignoring out-of-range requests.
    pub fn switch_tab(&mut self, index: usize)
        ensures
            final(self).tabs@ == old(self).tabs@,
            final(self).bookmarks@ == old(self).bookmarks@,
            index < old(self).tabs@.len() ==> final(self).active_tab == index,
            index >= old(self).tabs@.len() ==> final(self).active_tab == old(self).active_tab,
    {
        if index < self.tabs.len() {
            self.active_tab = index;
        }
    }

    /// Loads the fetched body of `url` into the active tab; with no
    /// active tab, nothing changes.
    pub fn navigate(&mut self, url: String, html: &str)
        ensures
            final(self).bookmarks@ == old(self).bookmarks@,
            final(self).active_tab == old(self).active_tab,
            old(self).active_tab >= old(self).tabs@.len() ==> final(self).tabs@ == old(
                self,
            ).tabs@,
            old(self).active_tab < old(self).tabs@.len() ==> {
                &&& final(self).tabs@.len() == old(self).tabs@.len()
                &&& final(self).tabs@[old(self).active_tab as int].url@ == url@
                &&& (final(self).tabs@[old(self).active_tab as int].content matches Some(c)
                    && c.title@ == spec_extract_title(html@))
                &&& (forall|i: int|
                    0 <= i < old(self).tabs@.len() && i != old(self).active_tab as int
                        ==> #[trigger] final(self).tabs@[i] == old(self).tabs@[i])
            },
    {
        if self.active_tab < self.tabs.len() {
            let i = self.active_tab;
            let tab = &mut self.tabs[i];
            tab.load(url, html);
        }
    }

    /// Steps the active tab back, handing it the fetched body of its back
    /// target; with no active tab, nothing changes.
    pub fn back(&mut self, html: &str)
        ensures
            final(self).bookmarks@ == old(self).bookmarks@,
            final(self).active_tab == old(self).active_tab,
            final(self).tabs@.len() == old(self).tabs@.len(),
    {
        if self.active_tab < self.tabs.len() {
            let i = self.active_tab;
            let tab = &mut self.tabs[i];
            tab.back(html);
        }
    }

    /// Whether `marks` already holds the address `u`.
    pub open spec fn spec_bookmarked(marks: Seq<String>, u: Seq<char>) -> bool {
        exists|i: int| 0 <= i < marks.len() && (#[trigger] marks[i])@ == u
    }

    /// Bookmarks the active tab's address: appended exactly when no equal
    /// bookmark exists yet, so repeated calls add no duplicate.
    pub fn bookmark(&mut self)
        ensures
            final(self).tabs@ == old(self).tabs@,
            final(self).active_tab == old(self).active_tab,
            old(self).active_tab >= old(self).tabs@.len() ==> final(self).bookmarks@ == old(
                self,
            ).bookmarks@,
            old(self).active_tab < old(self).tabs@.len() ==> ({
                let url = old(self).tabs@[old(self).active_tab as int].url@;
                if Self::spec_bookmarked(old(self).bookmarks@, url) {
                    final(self).bookmarks@ == old(self).bookmarks@
                } else {
                    exists|u: String|
                        u@ == url && final(self).bookmarks@ == old(self).bookmarks@.push(u)
                }
            }),
    {
        if self.active_tab < self.tabs.len() {
            let url = self.tabs[self.active_tab].url.clone();
            let mut present = false;
            let mut i: usize = 0;
            while i < self.bookmarks.len()
                invariant
                    i <= self.bookmarks@.len(),
                    self.tabs@ == old(self).tabs@,
                    self.active_tab == old(self).active_tab,
                    self.bookmarks@ == old(self).bookmarks@,
                    url@ == old(self).tabs@[old(self).active_tab as int].url@,
                    present ==> Self::spec_bookmarked(self.bookmarks@, url@),
                    !present ==> forall|j: int|
                        0 <= j < i ==> (#[trigger] self.bookmarks@[j])@ != url@,
                decreases self.bookmarks@.len() - i,
            {
                if str_eq(self.bookmarks[i].as_str(), url.as_str()) {
                    proof {
                        assert((self.bookmarks@[i as int])@ == url@);
                    }
                    present = true;
                }
                i += 1;
            }
            assert(present == Self::spec_bookmarked(self.bookmarks@, url@));
            if !present {
                self.bookmarks.push(url);
            }
        }
    }
}

} // verus!
