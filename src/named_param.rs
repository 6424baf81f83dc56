//! Named, parameterized objects (generators, linkers, display formats), and their
//! resolution from strings such as `"name"` or `"name/p1,p2"`.
use crate::parameters::{
    first_index_of, lemma_first_index, lemma_parse_well_typed, spec_parse, ParamError, ParamErrorKind, ParameterParser, ParameterType,
    ParameterValue,
};
use vstd::prelude::*;

verus! {

/// Whether each value has the type declared at its position.
pub open spec fn well_typed(values: Seq<ParameterValue>, types: Seq<ParameterType>) -> bool {
    &&& values.len() == types.len()
    &&& forall|i: int| 0 <= i < values.len() ==> #[trigger] values[i].has_type(types[i])
}

/// An alternative that is selected by its name and built from typed parameters.
pub trait NamedParam<T> {
    /// The name of the alternative.
    spec fn spec_name(&self) -> Seq<char>;

    /// The lines of its description.
    spec fn spec_description(&self) -> Seq<Seq<char>>;

    /// The types of the parameters it expects.
    spec fn spec_parameter_types(&self) -> Seq<ParameterType>;

    /// What building it from well-typed values gives: the object, or the kind of the
    /// error when the values are refused.
    spec fn spec_build(&self, values: Seq<ParameterValue>) -> Result<T, ParamErrorKind>;

    /// Returns the name of the alternative.
    fn name(&self) -> (r: &'static str)
        ensures
            r@ == self.spec_name(),
    ;

    /// Returns the description of the alternative, one logical portion per line.
    fn description(&self) -> (r: Vec<&'static str>)
        ensures
            r@.map_values(|l: &'static str| l@) == self.spec_description(),
    ;

    /// Returns the types of the expected parameters (empty when none is expected).
    fn expected_parameter_types(&self) -> (r: Vec<ParameterType>)
        ensures
            r@ == self.spec_parameter_types(),
    ;

    /// Builds the alternative from values checked against the expected types.
    fn try_with_params(&self, parameter_values: Vec<ParameterValue>) -> (r: Result<T, ParamError>)
        requires
            well_typed(parameter_values@, self.spec_parameter_types()),
        ensures
            match self.spec_build(parameter_values@) {
                Ok(t) => r == Ok::<T, ParamError>(t),
                Err(k) => r is Err && r->Err_0.kind == k,
            },
    ;
}

/// The name part of a `"name/params"` string: everything before the first `/`.
pub open spec fn name_part(s: Seq<char>) -> Seq<char> {
    s.take(first_index_of(s, '/'))
}

/// The parameter part of a `"name/params"` string: everything after the first `/`, or
/// nothing when there is no `/`.
pub open spec fn params_part(s: Seq<char>) -> Seq<char> {
    let d = first_index_of(s, '/');
    if d < s.len() {
        s.skip(d + 1)
    } else {
        Seq::empty()
    }
}

/// What building `plugin` from the parameter string `params` gives: the parse error, or
/// the object, or a refusal of the values (with `params`).
pub open spec fn spec_resolve<T, P: NamedParam<T>>(plugin: P, params: Seq<char>) -> Result<T, (ParamErrorKind, Seq<char>)> {
    match spec_parse(plugin.spec_parameter_types(), params) {
        Err(e) => Err(e),
        Ok(values) => match plugin.spec_build(values) {
            Ok(t) => Ok(t),
            Err(k) => Err((k, params)),
        },
    }
}

/// Whether `r` is what `spec` describes.
pub open spec fn resolves_to<T>(r: Result<T, ParamError>, spec: Result<T, (ParamErrorKind, Seq<char>)>) -> bool {
    match spec {
        Ok(t) => r == Ok::<T, ParamError>(t),
        Err(e) => r is Err && r->Err_0.kind == e.0 && r->Err_0.input@ == e.1,
    }
}

/// The error for a name that no alternative has.
pub fn not_found(s: &str) -> (r: ParamError)
    ensures
        r.kind == ParamErrorKind::NotFound,
        r.input@ == s@,
{
    ParamError { kind: ParamErrorKind::NotFound, input: s.to_owned() }
}

/// A string split at its first `/`: the name and the parameters.
pub struct NameAndParams<'a> {
    /// The name.
    pub name: &'a str,
    /// The parameters.
    pub params: &'a str,
}

/// Splits `s` at its first `/` into a name and a parameter string.
pub fn split_name(s: &str) -> (r: NameAndParams<'_>)
    ensures
        r.name@ == name_part(s@),
        r.params@ == params_part(s@),
{
    let n = s.unicode_len();
    let mut i: usize = 0;
    while i < n && s.get_char(i) != '/'
        invariant
            n == s@.len(),
            i <= n,
            forall|j: int| 0 <= j < i ==> s@[j] != '/',
        decreases n - i,
    {
        i += 1;
    }
    proof {
        lemma_first_index(s@, '/', i as int);
    }
    let name = s.substring_char(0, i);
    let params = if i < n {
        s.substring_char(i + 1, n)
    } else {
        s.substring_char(n, n)
    };
    proof {
        assert(s@.subrange(0, i as int) =~= s@.take(i as int));
        assert(s@.subrange(n as int, n as int) =~= Seq::<char>::empty());
        if i < n {
            assert(s@.subrange(i + 1, n as int) =~= s@.skip(i + 1));
        }
    }
    NameAndParams { name, params }
}

/// Whether two strings hold the same characters.
pub fn same_text(a: &str, b: &str) -> (r: bool)
    ensures
        r == (a@ == b@),
{
    let n = a.unicode_len();
    if n != b.unicode_len() {
        return false;
    }
    let mut i: usize = 0;
    while i < n
        invariant
            n == a@.len(),
            n == b@.len(),
            i <= n,
            forall|j: int| 0 <= j < i ==> a@[j] == b@[j],
        decreases n - i,
    {
        if a.get_char(i) != b.get_char(i) {
            return false;
        }
        i += 1;
    }
    assert(a@ =~= b@);
    true
}

/// Builds `plugin` from the parameter string `params`: parses it against the expected
/// types, then builds the object from the values.
pub fn resolve<T, P: NamedParam<T>>(plugin: &P, params: &str) -> (r: Result<T, ParamError>)
    ensures
        resolves_to(r, spec_resolve(*plugin, params@)),
{
    let parser = ParameterParser::new(plugin.expected_parameter_types());
    match parser.parse(params) {
        Err(e) => Err(e),
        Ok(values) => {
            proof {
                lemma_parse_well_typed(plugin.spec_parameter_types(), params@);
            }
            match plugin.try_with_params(values) {
                Ok(t) => Ok(t),
                Err(e) => Err(ParamError { kind: e.kind, input: params.to_owned() }),
            }
        },
    }
}

/// The name and description of an alternative, for listings.
pub struct Listing {
    /// The name.
    pub name: &'static str,
    /// The description, one logical portion per line.
    pub description: Vec<&'static str>,
}

/// The listing entry of `plugin`.
pub fn listing<T, P: NamedParam<T>>(plugin: &P) -> (r: Listing)
    ensures
        r.name@ == plugin.spec_name(),
        r.description@.map_values(|l: &'static str| l@) == plugin.spec_description(),
{
    Listing { name: plugin.name(), description: plugin.description() }
}

/// The names of the entries of a listing.
pub open spec fn listed_names(ls: Seq<Listing>) -> Seq<Seq<char>> {
    ls.map_values(|l: Listing| l.name@)
}

} // verus!
