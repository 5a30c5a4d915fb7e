//! The environment snapshot taken from the left peer's handshake, the
//! configured override source, and the override value that the two yield.

use crate::resolver::ParseError;
use vstd::prelude::*;
use vstd::string::StringExecFns;

verus! {

/// What the left peer's handshake carried: the request target, if the
/// transport has one, and the headers in the order in which they came.
#[derive(Debug, Clone, PartialEq, Eq)]
pub struct Environment {
    pub uri: Option<String>,
    pub headers: Vec<(String, String)>,
}

/// The mathematical content of an environment snapshot.
pub struct EnvironmentView {
    pub uri: Option<Seq<char>>,
    pub headers: Seq<(Seq<char>, Seq<char>)>,
}

/// The views of a list of name and value pairs.
pub open spec fn pairs_view(pairs: Seq<(String, String)>) -> Seq<(Seq<char>, Seq<char>)> {
    Seq::new(pairs.len(), |i: int| (pairs[i].0@, pairs[i].1@))
}

impl View for Environment {
    type V = EnvironmentView;

    open spec fn view(&self) -> EnvironmentView {
        EnvironmentView {
            uri: match self.uri {
                Some(uri) => Some(uri@),
                None => None,
            },
            headers: pairs_view(self.headers@),
        }
    }
}

/// Where the override value is taken from.
#[derive(Debug, Clone, PartialEq, Eq)]
pub enum OverrideSource {
    /// The request target itself, without its leading path separator.
    UriPath,
    /// The first query parameter of this name in the request target.
    QueryParameter(String),
    /// The first header of this name.
    Header(String),
}

/// The mathematical content of an override source.
pub enum OverrideSourceView {
    UriPath,
    QueryParameter(Seq<char>),
    Header(Seq<char>),
}

impl View for OverrideSource {
    type V = OverrideSourceView;

    open spec fn view(&self) -> OverrideSourceView {
        match self {
            OverrideSource::UriPath => OverrideSourceView::UriPath,
            OverrideSource::QueryParameter(name) => OverrideSourceView::QueryParameter(name@),
            OverrideSource::Header(name) => OverrideSourceView::Header(name@),
        }
    }
}

/// A fault in the static configuration, found before any connection is
/// accepted.
#[derive(Clone, Copy, Debug, PartialEq, Eq, Structural)]
pub enum ConfigurationError {
    /// Both a query parameter and a header are named as the override source.
    ConflictingOverrideSources,
    /// The type of a template is not a registered prefix.
    MalformedTemplate,
    /// An overlay for single connections wraps a multi-connect specifier.
    NotComposable,
}

/// Why no peer could be constructed for one connection.
#[derive(Clone, Copy, Debug, PartialEq, Eq, Structural)]
pub enum ConstructError {
    /// The merged spec string did not resolve.
    Parse(ParseError),
    /// The context holds no environment snapshot: the node is not layered on
    /// a transport that performs a handshake.
    MissingEnvironment,
    /// The request target is the override source and the request had none.
    MissingUri,
    /// The request target could not be read as a URI.
    MalformedUri,
    /// Re-specification led to re-specification more often than allowed.
    DepthExceeded,
}

/// The program-wide settings that the core reads.
#[derive(Debug, Clone, PartialEq, Eq)]
pub struct ProgramOptions {
    pub peer_ctl_query_param: Option<String>,
    pub peer_ctl_header: Option<String>,
    pub peer_ctl_depth: usize,
}

/// The bundle handed through every construction step: the override source,
/// the number of nested re-specifications allowed, and the environment
/// snapshot of the connection, once the handshake has filled it in.
#[derive(Debug, Clone, PartialEq, Eq)]
pub struct ConstructParams {
    pub override_source: OverrideSource,
    pub depth: usize,
    pub environment: Option<Environment>,
}

/// The mathematical content of a construction context.
pub struct ParamsView {
    pub override_source: OverrideSourceView,
    pub depth: nat,
    pub environment: Option<EnvironmentView>,
}

impl View for ConstructParams {
    type V = ParamsView;

    open spec fn view(&self) -> ParamsView {
        ParamsView {
            override_source: self.override_source@,
            depth: self.depth as nat,
            environment: match self.environment {
                Some(environment) => Some(environment@),
                None => None,
            },
        }
    }
}

/// The override source that a pair of settings selects.
pub open spec fn selected_source(
    query_param: Option<Seq<char>>,
    header: Option<Seq<char>>,
) -> Result<OverrideSourceView, ConfigurationError> {
    match (query_param, header) {
        (Some(_), Some(_)) => Err(ConfigurationError::ConflictingOverrideSources),
        (Some(name), None) => Ok(OverrideSourceView::QueryParameter(name)),
        (None, Some(name)) => Ok(OverrideSourceView::Header(name)),
        (None, None) => Ok(OverrideSourceView::UriPath),
    }
}

/// The view of an optional text.
pub open spec fn optional_text(text: Option<String>) -> Option<Seq<char>> {
    match text {
        Some(text) => Some(text@),
        None => None,
    }
}

impl ProgramOptions {
    /// The configured override source. Naming both a query parameter and a
    /// header is a configuration error; naming neither selects the request
    /// target.
    pub fn override_source(&self) -> (source: Result<OverrideSource, ConfigurationError>)
        ensures
            match source {
                Ok(source) => Ok(source@),
                Err(e) => Err(e),
            } == selected_source(
                optional_text(self.peer_ctl_query_param),
                optional_text(self.peer_ctl_header),
            ),
    {
        match (&self.peer_ctl_query_param, &self.peer_ctl_header) {
            (Some(_), Some(_)) => Err(ConfigurationError::ConflictingOverrideSources),
            (Some(name), None) => Ok(OverrideSource::QueryParameter(name.clone())),
            (None, Some(name)) => Ok(OverrideSource::Header(name.clone())),
            (None, None) => Ok(OverrideSource::UriPath),
        }
    }

    /// The construction context of one connection, from these settings and
    /// the environment snapshot of the connection.
    pub fn construct_params(&self, environment: Option<Environment>) -> (params: Result<
        ConstructParams,
        ConfigurationError,
    >)
        ensures
            match params {
                Ok(params) => {
                    &&& selected_source(
                        optional_text(self.peer_ctl_query_param),
                        optional_text(self.peer_ctl_header),
                    ) == Ok::<OverrideSourceView, ConfigurationError>(params@.override_source)
                    &&& params.depth == self.peer_ctl_depth
                    &&& params.environment == environment
                },
                Err(e) => selected_source(
                    optional_text(self.peer_ctl_query_param),
                    optional_text(self.peer_ctl_header),
                ) == Err::<OverrideSourceView, ConfigurationError>(e),
            },
    {
        match self.override_source() {
            Ok(override_source) => Ok(
                ConstructParams { override_source, depth: self.peer_ctl_depth, environment },
            ),
            Err(e) => Err(e),
        }
    }
}

/// The value of the first pair whose name is `name`, or the empty text when
/// there is none. Names are compared exactly, by case too.
pub open spec fn first_value(pairs: Seq<(Seq<char>, Seq<char>)>, name: Seq<char>) -> Seq<char>
    decreases pairs.len(),
{
    if pairs.len() == 0 {
        Seq::empty()
    } else if pairs[0].0 == name {
        pairs[0].1
    } else {
        first_value(pairs.drop_first(), name)
    }
}

/// `first_value` is the value at the least position that carries the name,
/// and empty when no position does.
pub proof fn lemma_first_value(pairs: Seq<(Seq<char>, Seq<char>)>, name: Seq<char>)
    ensures
        (forall|i: int| 0 <= i < pairs.len() ==> (#[trigger] pairs[i]).0 != name) ==> first_value(
            pairs,
            name,
        ) == Seq::<char>::empty(),
        forall|i: int|
            0 <= i < pairs.len() && (#[trigger] pairs[i]).0 == name && (forall|j: int|
                0 <= j < i ==> (#[trigger] pairs[j]).0 != name) ==> first_value(pairs, name)
                == pairs[i].1,
    decreases pairs.len(),
{
    if pairs.len() != 0 && pairs[0].0 != name {
        let rest = pairs.drop_first();
        lemma_first_value(rest, name);
        if forall|i: int| 0 <= i < pairs.len() ==> (#[trigger] pairs[i]).0 != name {
            assert forall|i: int| 0 <= i < rest.len() implies (#[trigger] rest[i]).0 != name by {
                assert(rest[i] == pairs[i + 1]);
            }
        }
        assert forall|i: int|
            0 <= i < pairs.len() && (#[trigger] pairs[i]).0 == name && (forall|j: int|
                0 <= j < i ==> (#[trigger] pairs[j]).0 != name) implies first_value(pairs, name)
            == pairs[i].1 by {
            assert(rest[i - 1] == pairs[i]);
            assert forall|j: int| 0 <= j < i - 1 implies (#[trigger] rest[j]).0 != name by {
                assert(rest[j] == pairs[j + 1]);
            }
        }
    } else if pairs.len() != 0 {
        assert forall|i: int|
            0 <= i < pairs.len() && (#[trigger] pairs[i]).0 == name && (forall|j: int|
                0 <= j < i ==> (#[trigger] pairs[j]).0 != name) implies first_value(pairs, name)
            == pairs[i].1 by {
            if i > 0 {
                assert(pairs[0].0 != name);
            }
        }
    }
}

/// The request target without its leading `/`, if it has one. One separator
/// is taken off, not more.
pub open spec fn path_spec(uri: Seq<char>) -> Seq<char> {
    if uri.len() > 0 && uri[0] == '/' {
        uri.skip(1)
    } else {
        uri
    }
}

/// The text that is read as a URL to reach the query of a request target:
/// the target behind a fixed scheme and host.
pub open spec fn absolute_form(uri: Seq<char>) -> Seq<char> {
    "https://example.com"@ + uri
}

/// The query pairs that `url::Url::parse` followed by `Url::query_pairs`
/// yields for a text: `None` where the text does not parse as an absolute
/// URL, else the decoded names and values in the order of the query string.
pub uninterp spec fn url_query_pairs(text: Seq<char>) -> Option<Seq<(Seq<char>, Seq<char>)>>;

/// The view of a parsed query.
pub open spec fn query_view(parsed: Option<Vec<(String, String)>>) -> Option<
    Seq<(Seq<char>, Seq<char>)>,
> {
    match parsed {
        Some(pairs) => Some(pairs_view(pairs@)),
        None => None,
    }
}

/// Parses `text` with `url::Url::parse` and reads the query of the result
/// with `Url::query_pairs`, each pair copied into owned strings. The contract
/// only names the result: it is a function of the text alone.
#[verifier::external_body]
fn parse_query_pairs(text: &str) -> (parsed: Option<Vec<(String, String)>>)
    ensures
        query_view(parsed) == url_query_pairs(text@),
{
    match url::Url::parse(text) {
        Ok(parsed) => Some(
            parsed.query_pairs().map(|(name, value)| (name.into_owned(), value.into_owned())).collect(),
        ),
        Err(_) => None,
    }
}

/// The override value that a parsed query holds for `name`: the value of the
/// first pair of that name, the empty text when there is none, and an error
/// where the request target did not parse.
pub open spec fn query_value_of(
    parsed: Option<Seq<(Seq<char>, Seq<char>)>>,
    name: Seq<char>,
) -> Result<Seq<char>, ConstructError> {
    match parsed {
        Some(pairs) => Ok(first_value(pairs, name)),
        None => Err(ConstructError::MalformedUri),
    }
}

/// The override value for a source and an environment snapshot.
pub open spec fn override_of(source: OverrideSourceView, env: EnvironmentView) -> Result<
    Seq<char>,
    ConstructError,
> {
    match source {
        OverrideSourceView::QueryParameter(name) => match env.uri {
            Some(uri) => query_value_of(url_query_pairs(absolute_form(uri)), name),
            None => Ok(Seq::empty()),
        },
        OverrideSourceView::Header(name) => Ok(first_value(env.headers, name)),
        OverrideSourceView::UriPath => match env.uri {
            Some(uri) => Ok(path_spec(uri)),
            None => Err(ConstructError::MissingUri),
        },
    }
}

/// The view of an override value or the error in its place.
pub open spec fn text_result(r: Result<String, ConstructError>) -> Result<
    Seq<char>,
    ConstructError,
> {
    match r {
        Ok(text) => Ok(text@),
        Err(e) => Err(e),
    }
}

/// The value of the first pair named `name`, or the empty text.
pub fn lookup_first(pairs: &Vec<(String, String)>, name: &String) -> (value: String)
    ensures
        value@ == first_value(pairs_view(pairs@), name@),
{
    let ghost all = pairs_view(pairs@);
    let mut i: usize = 0;
    assert(all.skip(0) =~= all);
    while i < pairs.len()
        invariant
            i <= pairs.len(),
            all == pairs_view(pairs@),
            first_value(all, name@) == first_value(all.skip(i as int), name@),
        decreases pairs.len() - i,
    {
        assert(all.skip(i as int)[0] == all[i as int]);
        assert(all.skip(i as int).drop_first() =~= all.skip(i + 1));
        if pairs[i].0 == *name {
            return pairs[i].1.clone();
        }
        i += 1;
    }
    String::new()
}

/// The override value that a parsed query holds for `name`.
pub fn query_value(parsed: &Option<Vec<(String, String)>>, name: &String) -> (value: Result<
    String,
    ConstructError,
>)
    ensures
        text_result(value) == query_value_of(query_view(*parsed), name@),
{
    match parsed {
        Some(pairs) => Ok(lookup_first(pairs, name)),
        None => Err(ConstructError::MalformedUri),
    }
}

impl Environment {
    /// The value of the first header named `name`, or the empty text.
    pub fn header(&self, name: &String) -> (value: String)
        ensures
            value@ == first_value(self@.headers, name@),
    {
        lookup_first(&self.headers, name)
    }

    /// The value of the first query parameter named `name` in the request
    /// target: the empty text when there is no such parameter or no request
    /// target, and an error where the request target does not parse.
    pub fn query_parameter(&self, name: &String) -> (value: Result<String, ConstructError>)
        ensures
            text_result(value) == override_of(OverrideSourceView::QueryParameter(name@), self@),
    {
        match &self.uri {
            Some(uri) => {
                let text = String::from_str("https://example.com").concat(uri.as_str());
                let parsed = parse_query_pairs(text.as_str());
                query_value(&parsed, name)
            },
            None => Ok(String::new()),
        }
    }

    /// The request target without its leading `/`, or an error where the
    /// request had no target.
    pub fn path(&self) -> (value: Result<String, ConstructError>)
        ensures
            text_result(value) == override_of(OverrideSourceView::UriPath, self@),
    {
        match &self.uri {
            Some(uri) => {
                let chars = crate::text::chars_of(uri.as_str());
                let from: usize = if chars.len() > 0 && chars[0] == '/' {
                    1
                } else {
                    0
                };
                let value = crate::text::string_of(&chars, from, chars.len());
                assert(value@ =~= path_spec(uri@));
                Ok(value)
            },
            None => Err(ConstructError::MissingUri),
        }
    }

    /// The override value that `source` selects from this snapshot.
    pub fn override_value(&self, source: &OverrideSource) -> (value: Result<
        String,
        ConstructError,
    >)
        ensures
            text_result(value) == override_of(source@, self@),
    {
        match source {
            OverrideSource::QueryParameter(name) => self.query_parameter(name),
            OverrideSource::Header(name) => Ok(self.header(name)),
            OverrideSource::UriPath => self.path(),
        }
    }
}

} // verus!
