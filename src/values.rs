//! The values table, read from a TOML document, and the rendering of
//! templates against it. The table and the engine are kept private to this
//! module, so that every render sees a table that is the parse of the
//! table's view and an engine that `Renderer::new` set up.

use vstd::prelude::*;
use crate::error::DeployError;
use crate::plan::Plan;

verus! {

#[verifier::external_type_specification]
#[verifier::external_body]
pub struct ExTomlValue(toml::Value);

#[verifier::external_type_specification]
#[verifier::external_body]
#[verifier::reject_recursive_types(K)]
#[verifier::reject_recursive_types(V)]
pub struct ExTomlMap<K, V>(toml::map::Map<K, V>);

#[verifier::external_type_specification]
#[verifier::external_body]
pub struct ExTomlError(toml::de::Error);

/// Whether the TOML parser accepts `doc` as a table.
pub uninterp spec fn toml_table_accepts(doc: Seq<char>) -> bool;

/// Relies on `<toml::Table as FromStr>::from_str` (that is, `toml::from_str`):
/// it parses a document into a table, or fails, depending on the text alone.
#[verifier::external_body]
fn parse_table(text: &str) -> (r: Result<toml::Table, toml::de::Error>)
    ensures
        r is Ok <==> toml_table_accepts(text@),
{
    text.parse::<toml::Table>()
}

/// A parsed values table. Its view is the document it was parsed from, so
/// that two tables with the same view hold the same values.
pub struct ValuesTable {
    table: toml::Table,
    document: Ghost<Seq<char>>,
}

impl View for ValuesTable {
    type V = Seq<char>;

    closed spec fn view(&self) -> Seq<char> {
        self.document@
    }
}

impl ValuesTable {
    /// Parses a values document. Fails with `ConfigParse` exactly where the
    /// document is not a well-formed table; no partial table is returned.
    pub fn parse(text: &str) -> (r: Result<ValuesTable, DeployError>)
        ensures
            r is Ok <==> toml_table_accepts(text@),
            r matches Ok(v) ==> v@ == text@,
            r matches Err(e) ==> e == DeployError::ConfigParse,
    {
        match parse_table(text) {
            Ok(table) => Ok(ValuesTable { table, document: Ghost(text@) }),
            Err(_) => Err(DeployError::ConfigParse),
        }
    }
}

/// The values table for a run, from the values document where one was
/// found. No document is `ConfigMissing`; a malformed one is `ConfigParse`.
pub fn resolve_values(document: Option<&str>) -> (r: Result<ValuesTable, DeployError>)
    ensures
        document is None ==> r == Err::<ValuesTable, DeployError>(DeployError::ConfigMissing),
        document matches Some(text) ==> {
            &&& r is Ok <==> toml_table_accepts(text@)
            &&& r matches Ok(v) ==> v@ == text@
            &&& r matches Err(e) ==> e == DeployError::ConfigParse
        },
{
    match document {
        Some(text) => ValuesTable::parse(text),
        None => Err(DeployError::ConfigMissing),
    }
}

/// The values table for a plan: none is loaded where no template needs
/// one, whatever document is at hand; otherwise as `resolve_values`.
pub fn values_for_plan(plan: &Plan, document: Option<&str>) -> (r: Result<Option<ValuesTable>, DeployError>)
    ensures
        !plan.needs_values ==> r is Ok && r->Ok_0 is None,
        plan.needs_values && document is None ==> r == Err::<Option<ValuesTable>, DeployError>(DeployError::ConfigMissing),
        plan.needs_values && document is Some ==> {
            let text = document->Some_0;
            &&& r is Ok <==> toml_table_accepts(text@)
            &&& r matches Ok(v) ==> v is Some && v->Some_0@ == text@
            &&& r matches Err(e) ==> e == DeployError::ConfigParse
        },
{
    if !plan.needs_values {
        return Ok(None);
    }
    match resolve_values(document) {
        Ok(v) => Ok(Some(v)),
        Err(e) => Err(e),
    }
}

#[verifier::external_type_specification]
#[verifier::external_body]
pub struct ExRegistry<'reg>(handlebars::Handlebars<'reg>);

#[verifier::external_type_specification]
#[verifier::external_body]
pub struct ExRenderError(handlebars::RenderError);

/// Whether `c` may stand between the `{{` and the `>` of a partial call:
/// whitespace, the whitespace-control `~`, or the `#` of a partial block.
pub open spec fn is_tag_fill(c: char) -> bool {
    c == ' ' || c == '\t' || c == '\n' || c == '\r' || c == '~' || c == '#'
}

/// Whether a partial call (`{{>` or `{{#>`, with fill between) opens at
/// index `i` of the template text `t`.
pub open spec fn partial_call_at(t: Seq<char>, i: int) -> bool {
    &&& 0 <= i
    &&& i + 1 < t.len()
    &&& t[i] == '{'
    &&& t[i + 1] == '{'
    &&& exists|k: int|
        i + 2 <= k < t.len() && #[trigger] t[k] == '>' && forall|m: int| i + 2 <= m < k ==> is_tag_fill(#[trigger] t[m])
}

/// Whether the template text calls a partial anywhere.
pub open spec fn calls_partial(t: Seq<char>) -> bool {
    exists|i: int| #[trigger] partial_call_at(t, i)
}

/// What a Handlebars registry that copies values unescaped makes of a
/// template against the table parsed from `document`: the rendered text,
/// or `None` where rendering fails.
pub uninterp spec fn rendered(template: Seq<char>, document: Seq<char>) -> Option<Seq<char>>;

/// Relies on `Handlebars::new`: a registry with no templates or helpers.
#[verifier::external_body]
fn new_registry() -> (r: handlebars::Handlebars<'static>) {
    handlebars::Handlebars::new()
}

/// Relies on `Handlebars::register_escape_fn` with `handlebars::no_escape`:
/// values are then written as they are, with no HTML escaping.
#[verifier::external_body]
fn disable_escaping(registry: &mut handlebars::Handlebars<'static>) {
    registry.register_escape_fn(handlebars::no_escape);
}

/// Relies on `Handlebars::render_template`: on a registry that `Renderer::new`
/// set up, the outcome depends on the template text and the values alone.
/// A template that calls a partial is left out: an inline partial that calls
/// itself recurses without bound.
#[verifier::external_body]
fn render_template(renderer: &Renderer, template: &str, values: &ValuesTable) -> (r: Result<String, handlebars::RenderError>)
    requires
        !calls_partial(template@),
    ensures
        match r {
            Ok(text) => rendered(template@, values@) == Some(text@),
            Err(_) => rendered(template@, values@) is None,
        },
{
    renderer.registry.render_template(template, &values.table)
}

/// A template engine that writes values unescaped. One is made per run and
/// handed to each render; it holds no state between renders.
pub struct Renderer {
    registry: handlebars::Handlebars<'static>,
}

impl Renderer {
    pub fn new() -> (r: Renderer) {
        let mut registry = new_registry();
        disable_escaping(&mut registry);
        Renderer { registry }
    }
}

/// Whether `c` may stand between the `{{` and the `>` of a partial call.
fn tag_fill(c: char) -> (r: bool)
    ensures
        r == is_tag_fill(c),
{
    c == ' ' || c == '\t' || c == '\n' || c == '\r' || c == '~' || c == '#'
}

/// Whether a partial call opens at index `i` of `t`.
fn partial_call_opens_at(t: &str, n: usize, i: usize) -> (r: bool)
    requires
        n == t@.len(),
        i < n,
    ensures
        r == partial_call_at(t@, i as int),
{
    if i + 1 >= n || t.get_char(i) != '{' || t.get_char(i + 1) != '{' {
        return false;
    }
    let mut k: usize = i + 2;
    while k < n
        invariant
            i + 2 <= k <= n,
            n == t@.len(),
            i + 1 < n,
            t@[i as int] == '{',
            t@[i + 1] == '{',
            forall|m: int| i + 2 <= m < k ==> is_tag_fill(#[trigger] t@[m]),
        decreases n - k,
    {
        let c = t.get_char(k);
        if c == '>' {
            assert(t@[k as int] == '>');
            return true;
        }
        if !tag_fill(c) {
            assert forall|j: int| i + 2 <= j < t@.len() && #[trigger] t@[j] == '>'
                implies !(forall|m: int| i + 2 <= m < j ==> is_tag_fill(#[trigger] t@[m])) by {
                if j > k {
                    assert(!is_tag_fill(t@[k as int]));
                } else {
                    assert(j < k);
                    assert(is_tag_fill(t@[j]));
                }
            }
            return false;
        }
        k = k + 1;
    }
    assert forall|j: int| i + 2 <= j < t@.len() && #[trigger] t@[j] == '>'
        implies !(forall|m: int| i + 2 <= m < j ==> is_tag_fill(#[trigger] t@[m])) by {
        assert(is_tag_fill(t@[j]));
    }
    false
}

/// Whether the template text calls a partial anywhere.
pub fn has_partial_call(template: &str) -> (r: bool)
    ensures
        r == calls_partial(template@),
{
    let n = template.unicode_len();
    let mut i: usize = 0;
    while i < n
        invariant
            i <= n == template@.len(),
            forall|j: int| 0 <= j < i ==> !partial_call_at(template@, j),
        decreases n - i,
    {
        if partial_call_opens_at(template, n, i) {
            return true;
        }
        i = i + 1;
    }
    false
}

/// Renders the text of a template against a values table. The result is a
/// function of the template text and the values alone. A template that
/// calls a partial is refused, and that refusal and any failure of the
/// engine is `Template`.
pub fn render_source(renderer: &Renderer, template: &str, values: &ValuesTable) -> (r: Result<String, DeployError>)
    ensures
        r is Ok <==> !calls_partial(template@) && rendered(template@, values@) is Some,
        r matches Ok(text) ==> rendered(template@, values@) == Some(text@),
        r matches Err(e) ==> e == DeployError::Template,
{
    if has_partial_call(template) {
        return Err(DeployError::Template);
    }
    match render_template(renderer, template, values) {
        Ok(text) => Ok(text),
        Err(_) => Err(DeployError::Template),
    }
}

} // verus!
