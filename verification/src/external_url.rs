//! Links that may be opened in the browser.

use crate::search::{ends, ends_with, to_lower};
use crate::text::{lower_all, same};
use vstd::prelude::*;
use vstd::string::*;

verus! {

/// A URL in its parts.
#[derive(Debug, PartialEq, Eq)]
pub struct ParsedUrl {
    pub scheme: String,
    pub host: Option<String>,
    /// The whole URL as it is written after parsing.
    pub text: String,
}

/// The parts of a URL.
pub struct UrlView {
    pub scheme: Seq<char>,
    pub host: Option<Seq<char>>,
    pub text: Seq<char>,
}

impl View for ParsedUrl {
    type V = UrlView;

    open spec fn view(&self) -> UrlView {
        UrlView {
            scheme: self.scheme@,
            host: crate::profiles::opt_view(self.host),
            text: self.text@,
        }
    }
}

/// The parts of a URL, where there is one.
pub open spec fn url_view(url: Option<ParsedUrl>) -> Option<UrlView> {
    match url {
        Some(u) => Some(u@),
        None => None,
    }
}

/// What the `url` crate reads in a text.
pub uninterp spec fn url_in(text: Seq<char>) -> Option<UrlView>;

/// `url::Url::parse`, then `Url::scheme`, `Url::host_str` and `Url::as_str` of what it
/// gave; nothing where it fails. This depends on the text alone.
#[verifier::external_body]
fn parse_url(text: &str) -> (r: Option<ParsedUrl>)
    ensures
        url_view(r) == url_in(text@),
{
    let url = url::Url::parse(text).ok()?;
    Some(ParsedUrl {
        scheme: url.scheme().to_string(),
        host: url.host_str().map(|h| h.to_string()),
        text: url.as_str().to_string(),
    })
}

/// Whether a host is ours, whatever the case of its letters.
pub open spec fn is_own_host(host: Option<Seq<char>>) -> bool {
    host matches Some(h) && (lower_all(h) == "ghostftp.com"@ || ends(
        lower_all(h),
        ".ghostftp.com"@,
    ))
}

/// Whether a URL may be opened: it is an HTTPS link to a host of ours.
pub open spec fn is_approved(url: UrlView) -> bool {
    url.scheme == "https"@ && is_own_host(url.host)
}

/// The URL to open, where the one that was read may be opened.
pub fn approve_url(parsed: Option<ParsedUrl>) -> (r: Result<String, String>)
    ensures
        match parsed {
            None => r matches Err(e) && e@ == "Invalid external URL"@,
            Some(url) => if is_approved(url@) {
                r == Ok::<String, String>(url.text)
            } else {
                r matches Err(e) && e@
                    == "Ghost FTP only opens approved ghostftp.com HTTPS links"@
            },
        },
{
    match parsed {
        None => Err("Invalid external URL".to_owned()),
        Some(url) => {
            let host = match &url.host {
                Some(h) => to_lower(h.as_str()),
                None => String::new(),
            };
            proof {
                reveal_strlit("ghostftp.com");
                reveal_strlit(".ghostftp.com");
                if url.host is None {
                    assert(host@.len() == 0);
                    assert("ghostftp.com"@.len() == 12);
                }
            }
            if !same(url.scheme.as_str(), "https") || !(same(host.as_str(), "ghostftp.com")
                || ends_with(host.as_str(), ".ghostftp.com")) {
                Err("Ghost FTP only opens approved ghostftp.com HTTPS links".to_owned())
            } else {
                Ok(url.text)
            }
        },
    }
}

/// The URL to open in the browser, for a link that was clicked.
pub fn open_external_url(url: &str) -> (r: Result<String, String>)
    ensures
        match url_in(url@) {
            None => r matches Err(e) && e@ == "Invalid external URL"@,
            Some(parsed) => if is_approved(parsed) {
                r matches Ok(text) && text@ == parsed.text
            } else {
                r matches Err(e) && e@
                    == "Ghost FTP only opens approved ghostftp.com HTTPS links"@
            },
        },
{
    approve_url(parse_url(url))
}

/// The platform that the application runs on, as far as opening links goes.
#[derive(Debug, Clone, Copy, PartialEq, Eq, Structural)]
pub enum Platform {
    Windows,
    Linux,
    MacOs,
    Other,
}

/// The command that opens an approved URL.
#[derive(Debug, PartialEq, Eq)]
pub struct BrowserCommand {
    pub program: String,
    pub args: Vec<String>,
}

/// The program that opens URLs.
pub open spec fn opener(platform: Platform) -> Option<Seq<char>> {
    match platform {
        Platform::Windows => Some("rundll32.exe"@),
        Platform::Linux => Some("xdg-open"@),
        Platform::MacOs => Some("open"@),
        Platform::Other => None,
    }
}

/// What the program is given.
pub open spec fn opener_args(platform: Platform, url: Seq<char>) -> Seq<Seq<char>> {
    match platform {
        Platform::Windows => seq!["url.dll,FileProtocolHandler"@, url],
        _ => seq![url],
    }
}

/// The command that opens a URL on this platform.
pub fn browser_command(platform: Platform, url: &str) -> (r: Result<BrowserCommand, String>)
    ensures
        match opener(platform) {
            Some(program) => r matches Ok(c) && c.program@ == program && crate::pieces::views(
                c.args@,
            ) == opener_args(platform, url@),
            None => r matches Err(e) && e@
                == "Opening external links is unsupported on this platform"@,
        },
{
    let mut args: Vec<String> = Vec::new();
    let program = match platform {
        Platform::Windows => {
            args.push("url.dll,FileProtocolHandler".to_owned());
            "rundll32.exe"
        },
        Platform::Linux => "xdg-open",
        Platform::MacOs => "open",
        Platform::Other => {
            return Err("Opening external links is unsupported on this platform".to_owned());
        },
    };
    args.push(url.to_owned());
    assert(crate::pieces::views(args@) == opener_args(platform, url@));
    Ok(BrowserCommand { program: program.to_owned(), args })
}

/// The message where the browser could not be started.
pub fn browser_failed(error: &str) -> (r: String)
    ensures
        r@ == "Could not open the default browser: "@ + error@,
{
    let mut r = "Could not open the default browser: ".to_owned();
    r.append(error);
    r
}

/// A host that merely ends in our name without the dot is not ours.
pub proof fn law_lookalike_host_is_refused(prefix: Seq<char>)
    requires
        prefix.len() > 0,
        prefix.last() != '.',
    ensures
        !is_own_host(Some(prefix + "ghostftp.com"@)),
{
    reveal_strlit("ghostftp.com");
    reveal_strlit(".ghostftp.com");
    let host = prefix + "ghostftp.com"@;
    let k = prefix.len() - 1;
    let lowered = lower_all(host);
    assert(lowered.len() == host.len());
    assert(lowered[k] == crate::text::lower(prefix[k]));
    if ends(lowered, ".ghostftp.com"@) {
        assert(lowered.skip(lowered.len() - 13)[0] == lowered[k]);
        assert(lowered[k] == '.');
    }
    if lowered == "ghostftp.com"@ {
        assert(lowered.len() == 12);
    }
}

/// Every host under our name is ours.
pub proof fn law_subdomain_is_ours(prefix: Seq<char>)
    ensures
        is_own_host(Some(prefix + ".ghostftp.com"@)),
{
    reveal_strlit(".ghostftp.com");
    let host = prefix + ".ghostftp.com"@;
    let lowered = lower_all(host);
    assert(lowered.skip(prefix.len() as int) == ".ghostftp.com"@);
    assert(lowered.len() - 13 == prefix.len());
}

/// Our hosts are our name and what ends in a dot and our name, in small or capital
/// letters; without a host, or with another one, there is nothing to open.
pub proof fn law_own_hosts(prefix: Seq<char>, host: Seq<char>)
    ensures
        lower_all(host) == prefix + "ghostftp.com"@ ==> (is_own_host(Some(host)) <==> prefix.len()
            == 0 || prefix.last() == '.'),
        !ends(lower_all(host), "ghostftp.com"@) ==> !is_own_host(Some(host)),
        !is_own_host(None),
{
    reveal_strlit("ghostftp.com");
    reveal_strlit(".ghostftp.com");
    let name = "ghostftp.com"@;
    let dotted = ".ghostftp.com"@;
    let lowered = lower_all(host);
    assert(dotted == seq!['.'] + name);
    if lowered == prefix + name {
        if prefix.len() == 0 {
            assert(lowered == name);
        } else {
            assert(lowered.skip(lowered.len() - 13)[0] == prefix.last());
            assert(lowered.len() > 12);
            if prefix.last() == '.' {
                assert(lowered.skip(lowered.len() - 13) == dotted);
            }
        }
    }
    if is_own_host(Some(host)) {
        if lowered == name {
            assert(lowered.skip(0) == name);
        } else {
            let tail = lowered.skip(lowered.len() - 13);
            assert(lowered.skip(lowered.len() - 12) == tail.skip(1));
            assert(tail.skip(1) == name);
        }
    }
}

/// Only links with the scheme `https` are opened, and of these all to a host of ours.
pub proof fn law_only_https_is_approved(url: UrlView)
    ensures
        is_approved(url) <==> url.scheme == seq!['h', 't', 't', 'p', 's'] && is_own_host(url.host),
{
    reveal_strlit("https");
    assert("https"@ == seq!['h', 't', 't', 'p', 's']);
}

/// Whatever the program, the URL is the last thing that it is given.
pub proof fn law_opener_is_given_the_url(platform: Platform, url: Seq<char>, other: Seq<char>)
    ensures
        opener_args(platform, url).len() > 0,
        opener_args(platform, url).last() == url,
        opener_args(platform, url).drop_last() == opener_args(platform, other).drop_last(),
        opener(platform) is None <==> platform is Other,
{
    assert(opener_args(platform, url).drop_last() == opener_args(platform, other).drop_last());
}

/// Each platform opens URLs with its own program, and Windows alone needs another word
/// before the URL.
pub proof fn law_openers(a: Platform, b: Platform, url: Seq<char>)
    ensures
        opener(a) is Some && opener(a) == opener(b) ==> a == b,
        opener(Platform::MacOs) == Some(seq!['o', 'p', 'e', 'n']),
        opener(Platform::Linux) == Some(seq!['x', 'd', 'g', '-', 'o', 'p', 'e', 'n']),
        opener_args(a, url).len() == if a is Windows {
            2nat
        } else {
            1nat
        },
{
    reveal_strlit("rundll32.exe");
    reveal_strlit("xdg-open");
    reveal_strlit("open");
    assert("open"@ == seq!['o', 'p', 'e', 'n']);
    assert("xdg-open"@ == seq!['x', 'd', 'g', '-', 'o', 'p', 'e', 'n']);
    assert("rundll32.exe"@[0] == 'r');
    assert("xdg-open"@[0] == 'x');
    assert("open"@[0] == 'o');
}

} // verus!
