//! The configuration of a test, as its attributes give it.

use vstd::prelude::*;
use cairo_felt::Felt252;

verus! {

/// `cairo_felt::Felt252`, an element of the field of the machine. Nothing is
/// known of such a value but that it is one.
#[verifier::external_type_specification]
#[verifier::external_body]
pub struct ExFelt252(Felt252);

/// `<Felt252 as Clone>::clone`, which the type derives: the copy is the
/// same element of the field.
pub assume_specification[ <Felt252 as Clone>::clone ](value: &Felt252) -> (r: Felt252)
    ensures
        r == *value,
;

/// The attribute that marks a function as a test.
pub const TEST_ATTR: &'static str = "test";

/// The attribute that makes a test panic on purpose.
pub const SHOULD_PANIC_ATTR: &'static str = "should_panic";

/// The attribute that sets the gas of a test.
pub const AVAILABLE_GAS_ATTR: &'static str = "available_gas";

/// The attribute that has a test skipped.
pub const IGNORE_ATTR: &'static str = "ignore";

/// The argument of `available_gas` that asks for no gas limit of its own.
pub const STATIC_GAS_ARG: &'static str = "static";

/// The name of the argument of `should_panic` that holds the panic values.
pub const EXPECTED_ARG: &'static str = "expected";

/// The gas of a test that does not say how much it needs: large, so that
/// a loop that never ends runs out of it.
pub const DEFAULT_AVAILABLE_GAS: usize = 0xffff_ffff;

/// Expectation for a panic case.
#[derive(Clone, Debug, PartialEq)]
pub enum PanicExpectation {
    /// Accept any panic value.
    Any,
    /// Accept only this specific vector of panics.
    Exact(Vec<Felt252>),
}

/// Expectation for a result of a test.
#[derive(Clone, Debug, PartialEq)]
pub enum TestExpectation {
    /// Running the test should not panic.
    Success,
    /// Running the test should result in a panic.
    Panics(PanicExpectation),
}

/// The configuration for running a single test.
#[derive(Clone, Debug, PartialEq)]
pub struct TestConfig {
    /// The amount of gas the test requested.
    pub available_gas: Option<usize>,
    /// The expected result of the run.
    pub expectation: TestExpectation,
    /// Should the test be ignored.
    pub ignored: bool,
}

/// Mathematical view of a [`TestConfig`]: the gas, whether the test is
/// ignored, and the expectation, where `panics` is `None` for a test that
/// should succeed, `Some(None)` for one that may panic with any value and
/// `Some(Some(values))` for one that must panic with `values`.
pub struct TestConfigView {
    pub available_gas: Option<usize>,
    pub panics: Option<Option<Seq<Felt252>>>,
    pub ignored: bool,
}

impl View for TestConfig {
    type V = TestConfigView;

    open spec fn view(&self) -> TestConfigView {
        TestConfigView {
            available_gas: self.available_gas,
            panics: match self.expectation {
                TestExpectation::Success => None,
                TestExpectation::Panics(PanicExpectation::Any) => Some(None),
                TestExpectation::Panics(PanicExpectation::Exact(values)) => Some(Some(values@)),
            },
            ignored: self.ignored,
        }
    }
}

/// An element of the tuple of expected panic values.
#[derive(Clone, Debug, PartialEq)]
pub enum TupleElement {
    /// A numeric literal, with its value in the field.
    Literal(Felt252),
    /// A short string, with its value in the field.
    ShortString(Felt252),
    /// Any other expression.
    Other,
}

/// The value of an argument of an attribute, as far as a test attribute
/// reads it.
#[derive(Clone, Debug, PartialEq)]
pub enum ArgValue {
    /// A numeric literal; `value` is its value where it fits a `usize`.
    Literal { value: Option<usize> },
    /// A path, with its text.
    Path { text: String },
    /// A tuple.
    Tuple { elements: Vec<TupleElement> },
    /// Any other expression.
    Other,
}

/// An argument of an attribute.
#[derive(Clone, Debug, PartialEq)]
pub enum AttributeArg {
    /// `value`.
    Unnamed { value: ArgValue },
    /// `name: value`.
    Named { name: String, value: ArgValue },
    /// Any other form.
    Other,
}

/// An attribute of a function.
#[derive(Clone, Debug, PartialEq)]
pub struct Attribute {
    pub id: String,
    pub args: Vec<AttributeArg>,
}

/// The part of an attribute that a diagnostic points at.
#[derive(Clone, Copy, Debug, PartialEq, Eq, Structural)]
pub enum AttributePart {
    /// The name of the attribute.
    Id,
    /// The arguments of the attribute.
    Args,
}

/// What is wrong with an attribute.
#[derive(Clone, Copy, Debug, PartialEq, Eq, Structural)]
pub enum DiagnosticKind {
    /// The attribute takes no arguments and has some.
    UnexpectedArguments,
    /// The attribute stands on a function that is no test.
    OnlyOnTests,
    /// The argument of `available_gas` is neither one numeric literal nor `static`.
    MalformedAvailableGas,
    /// The argument of `should_panic` is not `expected:` with a tuple of values.
    MalformedExpectedPanic,
}

impl DiagnosticKind {
    /// The text of the diagnostic.
    pub open spec fn message_view(self) -> Seq<char> {
        match self {
            DiagnosticKind::UnexpectedArguments => "Attribute should not have arguments."@,
            DiagnosticKind::OnlyOnTests => "Attribute should only appear on tests."@,
            DiagnosticKind::MalformedAvailableGas =>
                "Attribute should have a single numeric literal argument or `static`."@,
            DiagnosticKind::MalformedExpectedPanic =>
                "Expected panic must be of the form `expected: <tuple of felt252s>`."@,
        }
    }

    /// The text of the diagnostic.
    pub fn message(&self) -> (r: String)
        ensures
            r@ == self.message_view(),
    {
        match self {
            DiagnosticKind::UnexpectedArguments => "Attribute should not have arguments.".to_owned(),
            DiagnosticKind::OnlyOnTests => "Attribute should only appear on tests.".to_owned(),
            DiagnosticKind::MalformedAvailableGas =>
                "Attribute should have a single numeric literal argument or `static`.".to_owned(),
            DiagnosticKind::MalformedExpectedPanic =>
                "Expected panic must be of the form `expected: <tuple of felt252s>`.".to_owned(),
        }
    }
}

/// A defect of the attributes of a function.
#[derive(Clone, Copy, Debug, PartialEq, Eq, Structural)]
pub struct TestConfigDiagnostic {
    /// The place of the attribute among the attributes of the function.
    pub attribute: usize,
    pub part: AttributePart,
    pub kind: DiagnosticKind,
}

/// The first place from `i` on at which an attribute named `id` stands.
pub open spec fn first_named_from(attrs: Seq<Attribute>, id: Seq<char>, i: int) -> Option<usize>
    decreases attrs.len() - i,
{
    if 0 <= i < attrs.len() {
        if attrs[i].id@ == id {
            Some(i as usize)
        } else {
            first_named_from(attrs, id, i + 1)
        }
    } else {
        None
    }
}

/// The first place at which an attribute named `id` stands.
pub open spec fn first_named(attrs: Seq<Attribute>, id: Seq<char>) -> Option<usize> {
    first_named_from(attrs, id, 0)
}

/// The defect of an attribute that takes no arguments, if it has some.
pub open spec fn no_arguments_diagnostics(attrs: Seq<Attribute>, attribute: Option<usize>) -> Seq<
    TestConfigDiagnostic,
> {
    match attribute {
        Some(i) if attrs[i as int].args@.len() > 0 => seq![
            TestConfigDiagnostic {
                attribute: i,
                part: AttributePart::Id,
                kind: DiagnosticKind::UnexpectedArguments,
            },
        ],
        _ => Seq::empty(),
    }
}

/// The defect of an attribute that stands on a function that is no test.
pub open spec fn only_on_tests_diagnostics(attribute: Option<usize>) -> Seq<
    TestConfigDiagnostic,
> {
    match attribute {
        Some(i) => seq![
            TestConfigDiagnostic {
                attribute: i,
                part: AttributePart::Id,
                kind: DiagnosticKind::OnlyOnTests,
            },
        ],
        None => Seq::empty(),
    }
}

/// The gas that `available_gas` asks for: `Ok(Some(n))` for a number,
/// `Ok(None)` for `static`, `Err(())` where the arguments are malformed.
pub open spec fn available_gas_of(args: Seq<AttributeArg>) -> Result<Option<usize>, ()> {
    if args.len() != 1 {
        Err(())
    } else {
        match args[0] {
            AttributeArg::Unnamed { value: ArgValue::Literal { value: Some(n) } } => Ok(Some(n)),
            AttributeArg::Unnamed { value: ArgValue::Path { text } } => if text@
                == STATIC_GAS_ARG@ {
                Ok(None)
            } else {
                Err(())
            },
            _ => Err(()),
        }
    }
}

/// The gas of the test, and the defect of `available_gas` if it is malformed.
pub open spec fn available_gas_view(attrs: Seq<Attribute>, attribute: Option<usize>) -> (
    Option<usize>,
    Seq<TestConfigDiagnostic>,
) {
    match attribute {
        None => (Some(DEFAULT_AVAILABLE_GAS), Seq::empty()),
        Some(i) => match available_gas_of(attrs[i as int].args@) {
            Ok(gas) => (gas, Seq::empty()),
            Err(()) => (
                None,
                seq![
                    TestConfigDiagnostic {
                        attribute: i,
                        part: AttributePart::Args,
                        kind: DiagnosticKind::MalformedAvailableGas,
                    },
                ],
            ),
        },
    }
}

/// The value of an element of the tuple of expected panic values.
pub open spec fn element_value(element: TupleElement) -> Option<Felt252> {
    match element {
        TupleElement::Literal(value) => Some(value),
        TupleElement::ShortString(value) => Some(value),
        TupleElement::Other => None,
    }
}

/// The values of the elements, if each of them has one.
pub open spec fn element_values(elements: Seq<TupleElement>) -> Option<Seq<Felt252>> {
    if forall|i: int| 0 <= i < elements.len() ==> element_value(#[trigger] elements[i]) is Some {
        Some(Seq::new(elements.len(), |i: int| element_value(elements[i])->Some_0))
    } else {
        None
    }
}

/// The panic values that `should_panic` expects, where its arguments have
/// the form `expected: (values)`.
pub open spec fn panic_values_of(args: Seq<AttributeArg>) -> Option<Seq<Felt252>> {
    if args.len() != 1 {
        None
    } else {
        match args[0] {
            AttributeArg::Named { name, value: ArgValue::Tuple { elements } } => if name@
                == EXPECTED_ARG@ {
                element_values(elements@)
            } else {
                None
            },
            _ => None,
        }
    }
}

/// Whether the test should panic and with which values, and the defect of
/// `should_panic` if it is malformed.
pub open spec fn expectation_view(attrs: Seq<Attribute>, attribute: Option<usize>) -> (
    Option<Option<Seq<Felt252>>>,
    Seq<TestConfigDiagnostic>,
) {
    match attribute {
        None => (None, Seq::empty()),
        Some(i) => if attrs[i as int].args@.len() == 0 {
            (Some(None), Seq::empty())
        } else {
            match panic_values_of(attrs[i as int].args@) {
                Some(values) => (Some(Some(values)), Seq::empty()),
                None => (
                    Some(None),
                    seq![
                        TestConfigDiagnostic {
                            attribute: i,
                            part: AttributePart::Args,
                            kind: DiagnosticKind::MalformedExpectedPanic,
                        },
                    ],
                ),
            }
        },
    }
}

/// The defects of the attributes, in the order in which they are reported:
/// those of `test` or of attributes without it, of `ignore`, of
/// `available_gas`, of `should_panic`.
pub open spec fn diagnostics_view(attrs: Seq<Attribute>) -> Seq<TestConfigDiagnostic> {
    let test = first_named(attrs, TEST_ATTR@);
    let ignore = first_named(attrs, IGNORE_ATTR@);
    let gas = first_named(attrs, AVAILABLE_GAS_ATTR@);
    let should_panic = first_named(attrs, SHOULD_PANIC_ATTR@);
    let on_test = if test is Some {
        no_arguments_diagnostics(attrs, test)
    } else {
        only_on_tests_diagnostics(ignore) + only_on_tests_diagnostics(gas)
            + only_on_tests_diagnostics(should_panic)
    };
    on_test + no_arguments_diagnostics(attrs, ignore) + available_gas_view(attrs, gas).1
        + expectation_view(attrs, should_panic).1
}

/// The configuration that the attributes give: `Ok(None)` for a function
/// that is no test, the defects where there are any.
pub open spec fn test_config_view(attrs: Seq<Attribute>) -> Result<
    Option<TestConfigView>,
    Seq<TestConfigDiagnostic>,
> {
    if diagnostics_view(attrs).len() > 0 {
        Err(diagnostics_view(attrs))
    } else if first_named(attrs, TEST_ATTR@) is None {
        Ok(None)
    } else {
        Ok(
            Some(
                TestConfigView {
                    available_gas: available_gas_view(
                        attrs,
                        first_named(attrs, AVAILABLE_GAS_ATTR@),
                    ).0,
                    panics: expectation_view(attrs, first_named(attrs, SHOULD_PANIC_ATTR@)).0,
                    ignored: first_named(attrs, IGNORE_ATTR@) is Some,
                },
            ),
        )
    }
}

/// Whether `id` is the name `name`.
fn is_named(id: &String, name: &str) -> (r: bool)
    ensures
        r == (id@ == name@),
{
    *id == name.to_owned()
}

/// The first place at which an attribute named `name` stands.
fn find_attribute(attrs: &Vec<Attribute>, name: &str) -> (r: Option<usize>)
    ensures
        r == first_named(attrs@, name@),
        r matches Some(i) ==> i < attrs@.len(),
{
    let mut i: usize = 0;
    while i < attrs.len()
        invariant
            i <= attrs@.len(),
            first_named_from(attrs@, name@, i as int) == first_named(attrs@, name@),
        decreases attrs@.len() - i,
    {
        if is_named(&attrs[i].id, name) {
            return Some(i);
        }
        i += 1;
    }
    None
}

/// Adds the defect of an attribute that takes no arguments, if it has some.
fn check_no_arguments(
    attrs: &Vec<Attribute>,
    attribute: Option<usize>,
    diagnostics: &mut Vec<TestConfigDiagnostic>,
)
    requires
        attribute matches Some(i) ==> i < attrs@.len(),
    ensures
        final(diagnostics)@ == old(diagnostics)@ + no_arguments_diagnostics(attrs@, attribute),
{
    match attribute {
        Some(i) => {
            if attrs[i].args.len() > 0 {
                diagnostics.push(
                    TestConfigDiagnostic {
                        attribute: i,
                        part: AttributePart::Id,
                        kind: DiagnosticKind::UnexpectedArguments,
                    },
                );
            }
        },
        None => {},
    }
    assert(diagnostics@ =~= old(diagnostics)@ + no_arguments_diagnostics(attrs@, attribute));
}

/// Adds the defect of an attribute that stands on a function that is no test.
fn check_only_on_tests(attribute: Option<usize>, diagnostics: &mut Vec<TestConfigDiagnostic>)
    ensures
        final(diagnostics)@ == old(diagnostics)@ + only_on_tests_diagnostics(attribute),
{
    match attribute {
        Some(i) => {
            diagnostics.push(
                TestConfigDiagnostic {
                    attribute: i,
                    part: AttributePart::Id,
                    kind: DiagnosticKind::OnlyOnTests,
                },
            );
        },
        None => {},
    }
    assert(diagnostics@ =~= old(diagnostics)@ + only_on_tests_diagnostics(attribute));
}

/// The gas that the arguments of `available_gas` ask for.
fn parse_available_gas(args: &Vec<AttributeArg>) -> (r: Result<Option<usize>, ()>)
    ensures
        r == available_gas_of(args@),
{
    if args.len() != 1 {
        return Err(());
    }
    match &args[0] {
        AttributeArg::Unnamed { value: ArgValue::Literal { value: Some(n) } } => Ok(Some(*n)),
        AttributeArg::Unnamed { value: ArgValue::Path { text } } => {
            if is_named(text, STATIC_GAS_ARG) {
                Ok(None)
            } else {
                Err(())
            }
        },
        _ => Err(()),
    }
}

/// Extracts the available gas from the attribute, and adds a diagnostic if
/// the attribute is malformed. Returns `None` if the attribute is `static`
/// or malformed.
fn extract_available_gas(
    attrs: &Vec<Attribute>,
    available_gas_attr: Option<usize>,
    diagnostics: &mut Vec<TestConfigDiagnostic>,
) -> (r: Option<usize>)
    requires
        available_gas_attr matches Some(i) ==> i < attrs@.len(),
    ensures
        r == available_gas_view(attrs@, available_gas_attr).0,
        final(diagnostics)@ == old(diagnostics)@ + available_gas_view(
            attrs@,
            available_gas_attr,
        ).1,
{
    let r = match available_gas_attr {
        // Without the attribute a test gets a large amount of gas, of which
        // a loop that never ends runs out.
        None => Some(DEFAULT_AVAILABLE_GAS),
        Some(i) => match parse_available_gas(&attrs[i].args) {
            Ok(gas) => gas,
            Err(()) => {
                diagnostics.push(
                    TestConfigDiagnostic {
                        attribute: i,
                        part: AttributePart::Args,
                        kind: DiagnosticKind::MalformedAvailableGas,
                    },
                );
                None
            },
        },
    };
    assert(diagnostics@ =~= old(diagnostics)@ + available_gas_view(attrs@, available_gas_attr).1);
    r
}

/// The values of the elements, if each of them has one.
fn extract_element_values(elements: &Vec<TupleElement>) -> (r: Option<Vec<Felt252>>)
    ensures
        match element_values(elements@) {
            Some(values) => r matches Some(found) && found@ == values,
            None => r is None,
        },
{
    let mut values: Vec<Felt252> = Vec::new();
    let mut i: usize = 0;
    while i < elements.len()
        invariant
            i <= elements@.len(),
            values@.len() == i,
            forall|j: int|
                0 <= j < i ==> element_value(#[trigger] elements@[j]) == Some(values@[j]),
        decreases elements@.len() - i,
    {
        match &elements[i] {
            TupleElement::Literal(value) => {
                values.push(value.clone());
            },
            TupleElement::ShortString(value) => {
                values.push(value.clone());
            },
            TupleElement::Other => {
                assert(element_value(elements@[i as int]) is None);
                return None;
            },
        }
        i += 1;
    }
    assert(values@ =~= element_values(elements@)->Some_0);
    Some(values)
}

/// Tries to extract the expected panic values.
fn extract_panic_values(attr: &Attribute) -> (r: Option<Vec<Felt252>>)
    ensures
        match panic_values_of(attr.args@) {
            Some(values) => r matches Some(found) && found@ == values,
            None => r is None,
        },
{
    if attr.args.len() != 1 {
        return None;
    }
    match &attr.args[0] {
        AttributeArg::Named { name, value: ArgValue::Tuple { elements } } => {
            if !is_named(name, EXPECTED_ARG) {
                return None;
            }
            extract_element_values(elements)
        },
        _ => None,
    }
}

/// The view of the outcome of [`try_extract_test_config`].
pub open spec fn test_config_result_view(
    r: Result<Option<TestConfig>, Vec<TestConfigDiagnostic>>,
) -> Result<Option<TestConfigView>, Seq<TestConfigDiagnostic>> {
    match r {
        Ok(Some(config)) => Ok(Some(config@)),
        Ok(None) => Ok(None),
        Err(diagnostics) => Err(diagnostics@),
    }
}

/// Extracts the configuration of a test from the attributes of a function,
/// or returns the diagnostics if the attributes are set illegally.
pub fn try_extract_test_config(attrs: Vec<Attribute>) -> (r: Result<
    Option<TestConfig>,
    Vec<TestConfigDiagnostic>,
>)
    ensures
        test_config_result_view(r) == test_config_view(attrs@),
{
    let test_attr = find_attribute(&attrs, TEST_ATTR);
    let ignore_attr = find_attribute(&attrs, IGNORE_ATTR);
    let available_gas_attr = find_attribute(&attrs, AVAILABLE_GAS_ATTR);
    let should_panic_attr = find_attribute(&attrs, SHOULD_PANIC_ATTR);
    let mut diagnostics: Vec<TestConfigDiagnostic> = Vec::new();
    if test_attr.is_some() {
        check_no_arguments(&attrs, test_attr, &mut diagnostics);
    } else {
        check_only_on_tests(ignore_attr, &mut diagnostics);
        check_only_on_tests(available_gas_attr, &mut diagnostics);
        check_only_on_tests(should_panic_attr, &mut diagnostics);
    }
    check_no_arguments(&attrs, ignore_attr, &mut diagnostics);
    let ignored = ignore_attr.is_some();
    let available_gas = extract_available_gas(&attrs, available_gas_attr, &mut diagnostics);
    let ghost before_panics = diagnostics@;
    let (should_panic, expected_panic_value) = match should_panic_attr {
        Some(i) => {
            if attrs[i].args.len() == 0 {
                (true, None)
            } else {
                let values = extract_panic_values(&attrs[i]);
                if values.is_none() {
                    diagnostics.push(
                        TestConfigDiagnostic {
                            attribute: i,
                            part: AttributePart::Args,
                            kind: DiagnosticKind::MalformedExpectedPanic,
                        },
                    );
                }
                (true, values)
            }
        },
        None => (false, None),
    };
    assert(diagnostics@ =~= before_panics + expectation_view(attrs@, should_panic_attr).1);
    assert(diagnostics@ =~= diagnostics_view(attrs@));
    if diagnostics.len() > 0 {
        return Err(diagnostics);
    }
    Ok(
        if test_attr.is_none() {
            None
        } else {
            Some(
                TestConfig {
                    available_gas,
                    expectation: if should_panic {
                        TestExpectation::Panics(
                            match expected_panic_value {
                                Some(values) => PanicExpectation::Exact(values),
                                None => PanicExpectation::Any,
                            },
                        )
                    } else {
                        TestExpectation::Success
                    },
                    ignored,
                },
            )
        },
    )
}

} // verus!
