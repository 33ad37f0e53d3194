//! Redirect rules: loading one rule from the configuration, discovering the
//! rule names, and compiling every rule into a table of routes.
use vstd::prelude::*;
use std::sync::Arc;
use crate::config::{
    config_key, key_of, lemma_strings_view_push, lookup, lookup_var, names_in,
    rule_name_of_key, split_list, split_paths, strings_view,
};
use crate::handler::RedirEntryHandler;
use crate::text::{parse_bool, parse_bool_spec, parse_u16, parse_u16_spec};

verus! {

/// Why a rule could not be loaded.
pub enum ParseError {
    /// A required variable is not set; holds its key.
    Missing(String),
    /// A variable is set but does not parse; holds its key and the expected type.
    WrongFormat(String, String),
}

/// The mathematical value of a [`ParseError`].
pub enum ParseErrorView {
    Missing(Seq<char>),
    WrongFormat(Seq<char>, Seq<char>),
}

impl View for ParseError {
    type V = ParseErrorView;

    open spec fn view(&self) -> ParseErrorView {
        match self {
            ParseError::Missing(k) => ParseErrorView::Missing(k@),
            ParseError::WrongFormat(k, t) => ParseErrorView::WrongFormat(k@, t@),
        }
    }
}

/// The log line that reports an error.
pub open spec fn error_message(e: ParseErrorView) -> Seq<char> {
    match e {
        ParseErrorView::Missing(k) => "Variable \""@ + k + "\" is missing! Exiting."@,
        ParseErrorView::WrongFormat(k, t) => "Variable \""@ + k + "\" has wrong type, expected "@
            + t + "! Exiting."@,
    }
}

impl ParseError {
    /// The line that reports this error before the service gives up.
    pub fn message(&self) -> (r: String)
        ensures
            r@ == error_message(self@),
    {
        match self {
            ParseError::Missing(k) => {
                let mut m = String::from_str("Variable \"");
                m.append(k.as_str());
                m.append("\" is missing! Exiting.");
                m
            },
            ParseError::WrongFormat(k, t) => {
                let mut m = String::from_str("Variable \"");
                m.append(k.as_str());
                m.append("\" has wrong type, expected ");
                m.append(t.as_str());
                m.append("! Exiting.");
                m
            },
        }
    }
}

/// The mathematical value of a [`RedirEntry`].
pub struct RuleView {
    pub paths: Seq<Seq<char>>,
    pub target: Seq<char>,
    pub code: u16,
    pub js_only: bool,
    pub preserve_params: bool,
}

/// One redirect rule, shared by the routes of each of its paths.
pub struct RedirEntry {
    /// The request paths this rule answers.
    pub paths: Vec<String>,
    /// Where requests are sent.
    pub target: String,
    /// The status of a header redirect.
    pub code: u16,
    /// Answer with an HTML page that redirects instead of a header redirect.
    pub js_only: bool,
    /// Carry the request's query string over to the target.
    pub preserve_params: bool,
}

impl View for RedirEntry {
    type V = RuleView;

    open spec fn view(&self) -> RuleView {
        RuleView {
            paths: strings_view(self.paths@),
            target: self.target@,
            code: self.code,
            js_only: self.js_only,
            preserve_params: self.preserve_params,
        }
    }
}

/// The status codes that an HTTP response can carry: three digits.
pub open spec fn is_status_code(code: u16) -> bool {
    100 <= code && code <= 999
}

/// Relies on `http::StatusCode::from_u16` (re-exported by salvo as
/// `salvo::http::StatusCode`): it accepts a code exactly when it lies in
/// 100..=999.
#[verifier::external_body]
fn status_code_accepted(code: u16) -> (r: bool)
    ensures
        r == is_status_code(code),
{
    salvo::http::StatusCode::from_u16(code).is_ok()
}

/// A required variable: its value, or `Missing` with its key.
pub open spec fn required_var(vars: Seq<(String, String)>, key: Seq<char>) -> Result<Seq<char>, ParseErrorView> {
    match lookup(vars, key) {
        Some(v) => Ok(v),
        None => Err(ParseErrorView::Missing(key)),
    }
}

/// The status-code variable: missing is `Missing`; a value that is not a
/// valid status code is `WrongFormat` with type `Integer`.
pub open spec fn status_var(vars: Seq<(String, String)>, key: Seq<char>) -> Result<u16, ParseErrorView> {
    match lookup(vars, key) {
        None => Err(ParseErrorView::Missing(key)),
        Some(v) => match parse_u16_spec(v) {
            Some(c) => if is_status_code(c) {
                Ok(c)
            } else {
                Err(ParseErrorView::WrongFormat(key, "Integer"@))
            },
            None => Err(ParseErrorView::WrongFormat(key, "Integer"@)),
        },
    }
}

/// An optional flag: missing is `false`; a value other than `true` or
/// `false` is `WrongFormat` with type `Boolean`.
pub open spec fn flag_var(vars: Seq<(String, String)>, key: Seq<char>) -> Result<bool, ParseErrorView> {
    match lookup(vars, key) {
        None => Ok(false),
        Some(v) => match parse_bool_spec(v) {
            Some(b) => Ok(b),
            None => Err(ParseErrorView::WrongFormat(key, "Boolean"@)),
        },
    }
}

/// The rule named `name`, or the first error in the order paths, target,
/// code, js-only flag, query flag.
pub open spec fn load_rule(vars: Seq<(String, String)>, name: Seq<char>) -> Result<RuleView, ParseErrorView> {
    match required_var(vars, key_of(name, ""@)) {
        Err(e) => Err(e),
        Ok(p) => match required_var(vars, key_of(name, "__TARGET"@)) {
            Err(e) => Err(e),
            Ok(target) => match status_var(vars, key_of(name, "__CODE"@)) {
                Err(e) => Err(e),
                Ok(code) => match flag_var(vars, key_of(name, "__JS_ONLY"@)) {
                    Err(e) => Err(e),
                    Ok(js_only) => match flag_var(vars, key_of(name, "__PRESERVE_PARAMS"@)) {
                        Err(e) => Err(e),
                        Ok(preserve_params) => Ok(
                            RuleView { paths: split_paths(p), target, code, js_only, preserve_params },
                        ),
                    },
                },
            },
        },
    }
}

/// Reads a required variable.
fn read_required(vars: &Vec<(String, String)>, key: String) -> (r: Result<String, ParseError>)
    ensures
        r matches Ok(v) ==> required_var(vars@, key@) == Ok::<Seq<char>, ParseErrorView>(v@),
        r matches Err(e) ==> required_var(vars@, key@) == Err::<Seq<char>, ParseErrorView>(e@),
{
    match lookup_var(vars, key.as_str()) {
        Some(v) => Ok(v),
        None => Err(ParseError::Missing(key)),
    }
}

/// Reads the status-code variable.
fn read_status(vars: &Vec<(String, String)>, key: String) -> (r: Result<u16, ParseError>)
    ensures
        r matches Ok(c) ==> status_var(vars@, key@) == Ok::<u16, ParseErrorView>(c),
        r matches Err(e) ==> status_var(vars@, key@) == Err::<u16, ParseErrorView>(e@),
{
    match lookup_var(vars, key.as_str()) {
        None => Err(ParseError::Missing(key)),
        Some(v) => match parse_u16(v.as_str()) {
            Some(c) => if status_code_accepted(c) {
                Ok(c)
            } else {
                Err(ParseError::WrongFormat(key, String::from_str("Integer")))
            },
            None => Err(ParseError::WrongFormat(key, String::from_str("Integer"))),
        },
    }
}

/// Reads an optional flag.
fn read_flag(vars: &Vec<(String, String)>, key: String) -> (r: Result<bool, ParseError>)
    ensures
        r matches Ok(b) ==> flag_var(vars@, key@) == Ok::<bool, ParseErrorView>(b),
        r matches Err(e) ==> flag_var(vars@, key@) == Err::<bool, ParseErrorView>(e@),
{
    match lookup_var(vars, key.as_str()) {
        None => Ok(false),
        Some(v) => match parse_bool(v.as_str()) {
            Some(b) => Ok(b),
            None => Err(ParseError::WrongFormat(key, String::from_str("Boolean"))),
        },
    }
}

/// A route: a request path and the handler that answers on it.
pub struct Route {
    pub path: String,
    pub handler: RedirEntryHandler,
}

/// The routes of one rule: one per path, in order, each answering for the rule.
pub open spec fn rule_routes(rule: RuleView) -> Seq<(Seq<char>, RuleView)> {
    rule.paths.map_values(|p: Seq<char>| (p, rule))
}

/// The routes of the rules named in `names`, in order, or the first error.
pub open spec fn routes_for(vars: Seq<(String, String)>, names: Seq<Seq<char>>) -> Result<Seq<(Seq<char>, RuleView)>, ParseErrorView>
    decreases names.len(),
{
    if names.len() == 0 {
        Ok(seq![])
    } else {
        match routes_for(vars, names.drop_last()) {
            Err(e) => Err(e),
            Ok(r) => match load_rule(vars, names.last()) {
                Err(e) => Err(e),
                Ok(rule) => Ok(r + rule_routes(rule)),
            },
        }
    }
}

/// The route table of the configuration: the routes of every declared rule,
/// or the first error met.
pub open spec fn route_table(vars: Seq<(String, String)>) -> Result<Seq<(Seq<char>, RuleView)>, ParseErrorView> {
    routes_for(vars, names_in(vars))
}

/// The path and rule of each route.
pub open spec fn routes_view(rs: Seq<Route>) -> Seq<(Seq<char>, RuleView)> {
    rs.map_values(|r: Route| (r.path@, r.handler@))
}

/// Once the rules of a prefix of `names` fail, the whole list fails the same way.
proof fn lemma_routes_for_err(vars: Seq<(String, String)>, names: Seq<Seq<char>>, k: int)
    requires
        0 <= k <= names.len(),
        routes_for(vars, names.take(k)) is Err,
    ensures
        routes_for(vars, names) == routes_for(vars, names.take(k)),
    decreases names.len() - k,
{
    if k < names.len() {
        assert(names.take(k + 1).drop_last() =~= names.take(k));
        lemma_routes_for_err(vars, names, k + 1);
    } else {
        assert(names.take(k) =~= names);
    }
}

/// The number of paths of the rules named in `names`, a rule that fails to
/// load counting none.
pub open spec fn path_total(vars: Seq<(String, String)>, names: Seq<Seq<char>>) -> int
    decreases names.len(),
{
    if names.len() == 0 {
        0
    } else {
        path_total(vars, names.drop_last()) + match load_rule(vars, names.last()) {
            Ok(rule) => rule.paths.len() as int,
            Err(_) => 0,
        }
    }
}

/// Whether route `route` answers for a rule that loads from one of `names`
/// and whose paths include the route's path.
pub open spec fn route_of_some_rule(
    vars: Seq<(String, String)>,
    names: Seq<Seq<char>>,
    route: (Seq<char>, RuleView),
) -> bool {
    exists|i: int|
        0 <= i < names.len() && #[trigger] load_rule(vars, names[i]) == Ok::<RuleView, ParseErrorView>(route.1)
            && route.1.paths.contains(route.0)
}

proof fn lemma_routes_for_shape(vars: Seq<(String, String)>, names: Seq<Seq<char>>)
    requires
        routes_for(vars, names) is Ok,
    ensures
        routes_for(vars, names)->Ok_0.len() == path_total(vars, names),
        forall|j: int| 0 <= j < routes_for(vars, names)->Ok_0.len()
            ==> route_of_some_rule(vars, names, #[trigger] routes_for(vars, names)->Ok_0[j]),
    decreases names.len(),
{
    if names.len() > 0 {
        let prev = names.drop_last();
        lemma_routes_for_shape(vars, prev);
        let r = routes_for(vars, prev)->Ok_0;
        let rule = load_rule(vars, names.last())->Ok_0;
        let all = routes_for(vars, names)->Ok_0;
        assert(all == r + rule_routes(rule));
        assert forall|j: int| 0 <= j < all.len() implies route_of_some_rule(vars, names, #[trigger] all[j]) by {
            if j < r.len() {
                assert(all[j] == r[j]);
                assert(route_of_some_rule(vars, prev, r[j]));
                let i = choose|i: int|
                    0 <= i < prev.len() && #[trigger] load_rule(vars, prev[i]) == Ok::<RuleView, ParseErrorView>(r[j].1)
                        && r[j].1.paths.contains(r[j].0);
                assert(names[i] == prev[i]);
            } else {
                let k = j - r.len();
                assert(all[j] == (rule.paths[k], rule));
                assert(rule.paths[k] == rule.paths[k]);
                assert(names[names.len() - 1] == names.last());
            }
        }
    }
}

/// Each path of each rule gets its own route: a configuration whose rules
/// all load has exactly as many routes as its rules have paths together, and
/// every route answers for a rule declared by the configuration whose paths
/// include that route's path.
pub proof fn lemma_one_route_per_path(vars: Seq<(String, String)>)
    requires
        route_table(vars) is Ok,
    ensures
        route_table(vars)->Ok_0.len() == path_total(vars, names_in(vars)),
        forall|j: int| 0 <= j < route_table(vars)->Ok_0.len()
            ==> route_of_some_rule(vars, names_in(vars), #[trigger] route_table(vars)->Ok_0[j]),
{
    lemma_routes_for_shape(vars, names_in(vars));
}

impl RedirEntry {
    /// The rule names that the variables declare, in the variables' order.
    pub fn extract_names(vars: &Vec<(String, String)>) -> (names: Vec<String>)
        ensures
            strings_view(names@) == names_in(vars@),
    {
        let mut names: Vec<String> = Vec::new();
        let mut i: usize = 0;
        while i < vars.len()
            invariant
                i <= vars@.len(),
                strings_view(names@) == names_in(vars@.take(i as int)),
            decreases vars@.len() - i,
        {
            proof {
                assert(vars@.take(i + 1).drop_last() =~= vars@.take(i as int));
            }
            match rule_name_of_key(vars[i].0.as_str()) {
                Some(name) => {
                    proof {
                        lemma_strings_view_push(names@, name);
                    }
                    names.push(name);
                },
                None => {},
            }
            i = i + 1;
        }
        assert(vars@.take(vars@.len() as int) =~= vars@);
        names
    }

    /// Loads every declared rule and builds one route per path of each, in
    /// order; the first rule that fails to load fails the whole table.
    pub fn get_routers(vars: &Vec<(String, String)>) -> (r: Result<Vec<Route>, ParseError>)
        ensures
            r matches Ok(rs) ==> route_table(vars@) == Ok::<Seq<(Seq<char>, RuleView)>, ParseErrorView>(routes_view(rs@)),
            r matches Err(e) ==> route_table(vars@) == Err::<Seq<(Seq<char>, RuleView)>, ParseErrorView>(e@),
    {
        let names = RedirEntry::extract_names(vars);
        let ghost all = names_in(vars@);
        let mut routers: Vec<Route> = Vec::new();
        let mut i: usize = 0;
        proof {
            assert(all.take(0) =~= Seq::<Seq<char>>::empty());
            assert(routes_view(routers@) =~= Seq::<(Seq<char>, RuleView)>::empty());
        }
        while i < names.len()
            invariant
                strings_view(names@) == all,
                all == names_in(vars@),
                i <= names@.len(),
                routes_for(vars@, all.take(i as int)) == Ok::<Seq<(Seq<char>, RuleView)>, ParseErrorView>(routes_view(routers@)),
            decreases names@.len() - i,
        {
            proof {
                assert(all.take(i + 1).drop_last() =~= all.take(i as int));
                assert(all.take(i + 1).last() == names@[i as int]@);
            }
            let entry = match RedirEntry::from_vars(vars, names[i].as_str()) {
                Ok(e) => e,
                Err(e) => {
                    proof {
                        lemma_routes_for_err(vars@, all, i + 1);
                    }
                    return Err(e);
                },
            };
            let shared = Arc::new(entry);
            let ghost before = routes_view(routers@);
            let mut j: usize = 0;
            assert(rule_routes(shared@).take(0) =~= Seq::<(Seq<char>, RuleView)>::empty());
            while j < shared.paths.len()
                invariant
                    j <= shared.paths@.len(),
                    routes_view(routers@) == before + rule_routes(shared@).take(j as int),
                decreases shared.paths@.len() - j,
            {
                let shared2 = shared.clone();
                let route = Route { path: shared.paths[j].clone(), handler: RedirEntryHandler::new(shared2) };
                proof {
                    assert(routes_view(routers@.push(route)) =~= routes_view(routers@).push((route.path@, route.handler@)));
                    assert(rule_routes(shared@).take(j + 1) =~= rule_routes(shared@).take(j as int).push((route.path@, route.handler@)));
                }
                routers.push(route);
                j = j + 1;
            }
            proof {
                assert(rule_routes(shared@).take(shared.paths@.len() as int) =~= rule_routes(shared@));
            }
            i = i + 1;
        }
        proof {
            assert(all.take(names@.len() as int) =~= all);
        }
        Ok(routers)
    }

    /// Loads the rule named `name` from the variables.
    pub fn from_vars(vars: &Vec<(String, String)>, name: &str) -> (r: Result<RedirEntry, ParseError>)
        ensures
            r matches Ok(e) ==> load_rule(vars@, name@) == Ok::<RuleView, ParseErrorView>(e@),
            r matches Err(e) ==> load_rule(vars@, name@) == Err::<RuleView, ParseErrorView>(e@),
    {
        let paths = match read_required(vars, config_key(name, "")) {
            Ok(p) => split_list(p.as_str()),
            Err(e) => return Err(e),
        };
        let target = match read_required(vars, config_key(name, "__TARGET")) {
            Ok(t) => t,
            Err(e) => return Err(e),
        };
        let code = match read_status(vars, config_key(name, "__CODE")) {
            Ok(c) => c,
            Err(e) => return Err(e),
        };
        let js_only = match read_flag(vars, config_key(name, "__JS_ONLY")) {
            Ok(b) => b,
            Err(e) => return Err(e),
        };
        let preserve_params = match read_flag(vars, config_key(name, "__PRESERVE_PARAMS")) {
            Ok(b) => b,
            Err(e) => return Err(e),
        };
        Ok(RedirEntry { paths, target, code, js_only, preserve_params })
    }
}

} // verus!
