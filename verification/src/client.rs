//! The HTTP client: its proxy and its other settings.

use crate::text::{
    blank, is_blank, lemma_nothing_to_trim, lemma_trim_both, lemma_trimmed_blank, optional_texts,
    string_view, text_view, trim, trimmed, white_space,
};
use vstd::prelude::*;
use vstd::string::*;

verus! {

/// The browser that requests claim to come from.
pub const USER_AGENT: &'static str =
    "Mozilla/5.0 (Macintosh; Intel Mac OS X 10_15_7) AppleWebKit/537.36 (KHTML, like Gecko) Chrome/126.0 Safari/537.36";

/// The page that requests claim to come from.
pub const REFERER: &'static str = "https://gofile.io/";

/// How long connecting may take, in seconds.
pub const CONNECT_TIMEOUT_SECS: u64 = 30;

/// How many redirects are followed.
pub const REDIRECT_LIMIT: usize = 10;

/// How often an idle connection is probed, in seconds.
pub const TCP_KEEPALIVE_SECS: u64 = 60;

/// The longest URL of a proxy, in characters. A character takes up to twelve bytes in a URL once it
/// is percent-encoded, and places in a URL are counted in 32 bits.
pub const PROXY_TEXT_LIMIT: usize = 0x1000_0000;

/// `reqwest::Proxy`, which says where a client sends its requests.
#[verifier::external_type_specification]
#[verifier::external_body]
pub struct ExProxy(reqwest::Proxy);

/// `reqwest::Error`, which says why a URL cannot be that of a proxy.
#[verifier::external_type_specification]
#[verifier::external_body]
pub struct ExReqwestError(reqwest::Error);

/// What `reqwest::Proxy::all` makes of a URL.
pub uninterp spec fn parsed_proxy(url: Seq<char>) -> Result<reqwest::Proxy, reqwest::Error>;

/// `reqwest::Proxy::all`: a proxy for all requests, if `url` is that of a host. The result is a
/// function of `url`, which `parsed_proxy` names.
///
/// Where the URL of a SOCKS proxy has no port, its default port is written into it. The bound on
/// `url` leaves room for that.
#[verifier::external_body]
fn proxy_for_all(url: &str) -> (res: Result<reqwest::Proxy, reqwest::Error>)
    requires
        url@.len() <= PROXY_TEXT_LIMIT,
    ensures
        res == parsed_proxy(url@),
{
    reqwest::Proxy::all(url)
}

/// The first value that is set.
pub open spec fn first_set(values: Seq<Option<Seq<char>>>) -> Option<Seq<char>>
    decreases values.len(),
{
    if values.len() == 0 {
        None
    } else if values[0] is Some {
        values[0]
    } else {
        first_set(values.skip(1))
    }
}

/// A text, trimmed, unless it is missing or blank.
pub open spec fn given(text: Option<Seq<char>>) -> Option<Seq<char>> {
    match text {
        Some(text) if !blank(text) => Some(trimmed(text)),
        _ => None,
    }
}

/// The URL of the proxy: the one of the command line, or else the first one that the environment
/// sets. A blank one on the command line counts as missing; a blank one in the environment hides
/// those after it.
pub open spec fn resolved_proxy(
    cli_proxy: Option<Seq<char>>,
    vars: Seq<Option<Seq<char>>>,
) -> Option<Seq<char>> {
    match given(cli_proxy) {
        Some(url) => Some(url),
        None => given(first_set(vars)),
    }
}

/// The environment variables that may name a proxy, the first one first.
pub fn proxy_vars() -> (names: Vec<&'static str>)
    ensures
        names@.map_values(|name: &'static str| name@) == seq![
            "HTTPS_PROXY"@,
            "https_proxy"@,
            "ALL_PROXY"@,
            "all_proxy"@,
        ],
{
    let names: Vec<&'static str> = vec!["HTTPS_PROXY", "https_proxy", "ALL_PROXY", "all_proxy"];
    assert(names@.map_values(|name: &'static str| name@) =~= seq![
        "HTTPS_PROXY"@,
        "https_proxy"@,
        "ALL_PROXY"@,
        "all_proxy"@,
    ]);
    names
}

fn given_text(text: &str) -> (res: Option<String>)
    ensures
        string_view(res) == given(Some(text@)),
{
    if is_blank(text) {
        None
    } else {
        Some(trim(text).to_owned())
    }
}

/// The URL of the proxy, from the command line and from the values of the variables that
/// `proxy_vars` names.
pub fn resolve_proxy_url(cli_proxy: Option<&str>, vars: &Vec<Option<String>>) -> (res: Option<
    String,
>)
    ensures
        string_view(res) == resolved_proxy(text_view(cli_proxy), optional_texts(vars@)),
{
    if let Some(value) = cli_proxy {
        let url = given_text(value);
        if url.is_some() {
            return url;
        }
    }
    let ghost values = optional_texts(vars@);
    let mut i: usize = 0;
    assert(values.skip(0) =~= values);
    while i < vars.len()
        invariant
            values == optional_texts(vars@),
            i <= vars@.len(),
            first_set(values) == first_set(values.skip(i as int)),
            given(text_view(cli_proxy)) is None,
        decreases vars@.len() - i,
    {
        assert(values.skip(i as int)[0] == values[i as int]);
        if let Some(value) = &vars[i] {
            return given_text(value.as_str());
        }
        assert(values.skip(i as int).skip(1) =~= values.skip(i + 1));
        i = i + 1;
    }
    None
}

/// The settings of the HTTP client.
pub struct ClientSettings {
    /// The `User-Agent` header of every request.
    pub user_agent: &'static str,
    /// The `Referer` header of every request.
    pub referer: &'static str,
    /// How long connecting may take, in seconds.
    pub connect_timeout_secs: u64,
    /// How many redirects are followed.
    pub redirect_limit: usize,
    /// How often an idle connection is probed, in seconds.
    pub tcp_keepalive_secs: u64,
    /// Whether to speak HTTP/1 alone.
    pub http1_only: bool,
    /// The proxy, if there is one.
    pub proxy: Option<reqwest::Proxy>,
}

impl ClientSettings {
    /// The settings of every client, with `proxy`.
    pub open spec fn are_usual_with(self, proxy: Option<reqwest::Proxy>) -> bool {
        &&& self.user_agent@ == USER_AGENT@
        &&& self.referer@ == REFERER@
        &&& self.connect_timeout_secs == CONNECT_TIMEOUT_SECS
        &&& self.redirect_limit == REDIRECT_LIMIT
        &&& self.tcp_keepalive_secs == TCP_KEEPALIVE_SECS
        &&& self.http1_only
        &&& self.proxy == proxy
    }
}

/// Why there are no settings for a client.
#[derive(Debug)]
pub enum ClientError {
    /// The URL of the proxy cannot be used.
    InvalidProxy {
        /// The URL.
        url: String,
        /// What is wrong with it.
        source: reqwest::Error,
    },
}

impl ClientError {
    /// The message for the user, without the source.
    pub open spec fn text(self) -> Seq<char> {
        match self {
            ClientError::InvalidProxy { url, source } => "invalid proxy URL "@ + url@,
        }
    }

    /// The message for the user, without the source.
    pub fn message(&self) -> (res: String)
        ensures
            res@ == self.text(),
    {
        match self {
            ClientError::InvalidProxy { url, .. } => {
                let mut message = "invalid proxy URL ".to_owned();
                message.append(url.as_str());
                message
            },
        }
    }
}

/// Whether `res` holds the settings for a client without a proxy (`proxy` is `None`), or what
/// becomes of the URL of a proxy and of its parsing.
pub open spec fn settings_follow(
    res: Result<ClientSettings, ClientError>,
    proxy: Option<(Seq<char>, Result<reqwest::Proxy, reqwest::Error>)>,
) -> bool {
    match proxy {
        None => res matches Ok(settings) && settings.are_usual_with(None),
        Some((_, Ok(proxy))) => res matches Ok(settings) && settings.are_usual_with(Some(proxy)),
        Some((url, Err(error))) => res matches Err(ClientError::InvalidProxy { url: named, source })
            && named@ == url && source == error,
    }
}

/// The settings for a client, given the URL of its proxy with what became of its parsing.
pub fn settings_with_proxy(
    proxy: Option<(String, Result<reqwest::Proxy, reqwest::Error>)>,
) -> (res: Result<ClientSettings, ClientError>)
    ensures
        settings_follow(
            res,
            match proxy {
                Some((url, parsed)) => Some((url@, parsed)),
                None => None,
            },
        ),
{
    let proxy: Option<reqwest::Proxy> = match proxy {
        None => None,
        Some((_, Ok(proxy))) => Some(proxy),
        Some((url, Err(error))) => {
            return Err(ClientError::InvalidProxy { url, source: error });
        },
    };
    Ok(
        ClientSettings {
            user_agent: USER_AGENT,
            referer: REFERER,
            connect_timeout_secs: CONNECT_TIMEOUT_SECS,
            redirect_limit: REDIRECT_LIMIT,
            tcp_keepalive_secs: TCP_KEEPALIVE_SECS,
            http1_only: true,
            proxy,
        },
    )
}

/// The settings for the client, with the proxy that the command line or the environment names.
pub fn client_settings(cli_proxy: Option<&str>, vars: &Vec<Option<String>>) -> (res: Result<
    ClientSettings,
    ClientError,
>)
    requires
        resolved_proxy(text_view(cli_proxy), optional_texts(vars@)) matches Some(url) ==> url.len()
            <= PROXY_TEXT_LIMIT,
    ensures
        settings_follow(
            res,
            match resolved_proxy(text_view(cli_proxy), optional_texts(vars@)) {
                Some(url) => Some((url, parsed_proxy(url))),
                None => None,
            },
        ),
{
    match resolve_proxy_url(cli_proxy, vars) {
        None => settings_with_proxy(None),
        Some(url) => {
            let parsed = proxy_for_all(url.as_str());
            settings_with_proxy(Some((url, parsed)))
        },
    }
}

/// The command line has the last word: what the environment says matters only without it.
pub proof fn law_command_line_proxy_wins(
    cli_proxy: Seq<char>,
    vars: Seq<Option<Seq<char>>>,
    others: Seq<Option<Seq<char>>>,
)
    requires
        !blank(cli_proxy),
    ensures
        resolved_proxy(Some(cli_proxy), vars) == resolved_proxy(Some(cli_proxy), others),
        resolved_proxy(Some(cli_proxy), vars) == Some(trimmed(cli_proxy)),
{
}

/// A proxy that is used at all has a URL that is neither empty nor padded with white space.
pub proof fn law_proxy_url_is_trimmed(
    cli_proxy: Option<Seq<char>>,
    vars: Seq<Option<Seq<char>>>,
)
    ensures
        resolved_proxy(cli_proxy, vars) matches Some(url) ==> !blank(url) && trimmed(url) == url,
{
    if let Some(text) = cli_proxy {
        lemma_trimmed_twice(text);
    }
    if let Some(text) = first_set(vars) {
        lemma_trimmed_twice(text);
    }
}

proof fn lemma_trimmed_twice(text: Seq<char>)
    ensures
        trimmed(trimmed(text)) == trimmed(text),
        !blank(text) ==> !blank(trimmed(text)),
{
    lemma_trimmed_blank(text);
    if trimmed(text).len() > 0 {
        lemma_trimmed_ends(text);
        lemma_nothing_to_trim(trimmed(text));
    }
}

/// Text that was trimmed starts and ends outside of white space.
proof fn lemma_trimmed_ends(text: Seq<char>)
    requires
        trimmed(text).len() > 0,
    ensures
        !white_space(trimmed(text)[0]),
        !white_space(trimmed(text).last()),
{
    let (from, to) = lemma_trim_both(text, |c: char| white_space(c));
    assert(trimmed(text)[0] == text[from]);
    assert(trimmed(text).last() == text[to - 1]);
}

/// Where the command line names no proxy, the first variable that is set decides, and the others
/// play no part: it gives its text without white space at its ends, or no proxy where it is blank.
pub proof fn law_first_variable_decides(
    cli_proxy: Option<Seq<char>>,
    vars: Seq<Option<Seq<char>>>,
    at: int,
)
    requires
        cli_proxy matches Some(text) ==> blank(text),
        0 <= at < vars.len(),
        vars[at] is Some,
        forall|i: int| 0 <= i < at ==> (#[trigger] vars[i]) is None,
    ensures
        blank(vars[at]->0) ==> resolved_proxy(cli_proxy, vars) is None,
        !blank(vars[at]->0) ==> resolved_proxy(cli_proxy, vars) == Some(trimmed(vars[at]->0)),
{
    lemma_first_set(vars, at);
}

/// Without a proxy on the command line and without a variable that is set, there is no proxy.
pub proof fn law_no_proxy_without_a_name(
    cli_proxy: Option<Seq<char>>,
    vars: Seq<Option<Seq<char>>>,
)
    requires
        cli_proxy matches Some(text) ==> blank(text),
        forall|i: int| 0 <= i < vars.len() ==> (#[trigger] vars[i]) is None,
    ensures
        resolved_proxy(cli_proxy, vars) is None,
{
    lemma_none_set(vars);
}

proof fn lemma_first_set(values: Seq<Option<Seq<char>>>, at: int)
    requires
        0 <= at < values.len(),
        values[at] is Some,
        forall|i: int| 0 <= i < at ==> (#[trigger] values[i]) is None,
    ensures
        first_set(values) == values[at],
    decreases at,
{
    if at > 0 {
        assert(values[0] is None);
        let rest = values.skip(1);
        assert forall|i: int| 0 <= i < at - 1 implies (#[trigger] rest[i]) is None by {
            assert(rest[i] == values[i + 1]);
        }
        lemma_first_set(rest, at - 1);
    }
}

proof fn lemma_none_set(values: Seq<Option<Seq<char>>>)
    requires
        forall|i: int| 0 <= i < values.len() ==> (#[trigger] values[i]) is None,
    ensures
        first_set(values) is None,
    decreases values.len(),
{
    if values.len() > 0 {
        assert(values[0] is None);
        let rest = values.skip(1);
        assert forall|i: int| 0 <= i < rest.len() implies (#[trigger] rest[i]) is None by {
            assert(rest[i] == values[i + 1]);
        }
        lemma_none_set(rest);
    }
}

/// A proxy that was asked for is used, and no other; one whose URL is refused makes the settings
/// fail, with that URL and the reason. There are settings in every other case, and but for the proxy
/// they are always the same.
pub proof fn law_settings_use_the_proxy(
    res: Result<ClientSettings, ClientError>,
    url: Seq<char>,
    parsed: Result<reqwest::Proxy, reqwest::Error>,
)
    ensures
        settings_follow(res, None) ==> res is Ok && res->Ok_0.proxy is None,
        settings_follow(res, Some((url, parsed))) ==> (res is Ok <==> parsed is Ok),
        settings_follow(res, Some((url, parsed))) && res is Ok ==> res->Ok_0.proxy == Some(
            parsed->Ok_0,
        ),
        settings_follow(res, Some((url, parsed))) && res is Err ==> res->Err_0->url@ == url
            && res->Err_0->source == parsed->Err_0,
        (settings_follow(res, None) || settings_follow(res, Some((url, parsed)))) && res is Ok ==> ({
            let settings = res->Ok_0;
            &&& settings.user_agent@ == USER_AGENT@
            &&& settings.referer@ == "https://gofile.io/"@
            &&& settings.connect_timeout_secs == 30
            &&& settings.redirect_limit == 10
            &&& settings.tcp_keepalive_secs == 60
            &&& settings.http1_only
        }),
{
}

/// The message about a proxy names its URL.
pub proof fn law_refused_proxy_is_named(error: ClientError)
    ensures
        error matches ClientError::InvalidProxy { url, source } ==> error.text()
            == "invalid proxy URL "@ + url@,
{
}

/// The browser that requests claim to come from, and the room that the URL of a proxy has.
pub proof fn law_fixed_settings()
    ensures
        USER_AGENT@ == "Mozilla/5.0 (Macintosh; Intel Mac OS X 10_15_7) "@
            + "AppleWebKit/537.36 (KHTML, like Gecko) Chrome/126.0 Safari/537.36"@,
        PROXY_TEXT_LIMIT == 0x1000_0000,
{
    reveal_strlit(
        "Mozilla/5.0 (Macintosh; Intel Mac OS X 10_15_7) AppleWebKit/537.36 (KHTML, like Gecko) Chrome/126.0 Safari/537.36",
    );
    reveal_strlit("Mozilla/5.0 (Macintosh; Intel Mac OS X 10_15_7) ");
    reveal_strlit("AppleWebKit/537.36 (KHTML, like Gecko) Chrome/126.0 Safari/537.36");
    assert(USER_AGENT@ =~= "Mozilla/5.0 (Macintosh; Intel Mac OS X 10_15_7) "@
        + "AppleWebKit/537.36 (KHTML, like Gecko) Chrome/126.0 Safari/537.36"@);
}

} // verus!
