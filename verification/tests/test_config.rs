use cairo_felt::Felt252;
use store_variables::test_config::{
    try_extract_test_config, ArgValue, Attribute, AttributeArg, AttributePart, DiagnosticKind,
    PanicExpectation, TestConfig, TestConfigDiagnostic, TestExpectation, TupleElement,
};

fn attr(id: &str, args: Vec<AttributeArg>) -> Attribute {
    Attribute { id: id.to_string(), args }
}

fn unnamed(value: ArgValue) -> AttributeArg {
    AttributeArg::Unnamed { value }
}

fn expected(elements: Vec<TupleElement>) -> AttributeArg {
    AttributeArg::Named { name: "expected".to_string(), value: ArgValue::Tuple { elements } }
}

fn diagnostic(attribute: usize, part: AttributePart, kind: DiagnosticKind) -> TestConfigDiagnostic {
    TestConfigDiagnostic { attribute, part, kind }
}

fn config(available_gas: Option<usize>, expectation: TestExpectation, ignored: bool) -> TestConfig {
    TestConfig { available_gas, expectation, ignored }
}

#[test]
fn function_without_attributes_is_no_test() {
    assert_eq!(try_extract_test_config(vec![]), Ok(None));
    assert_eq!(try_extract_test_config(vec![attr("inline", vec![])]), Ok(None));
}

#[test]
fn plain_test_gets_the_default_gas() {
    assert_eq!(
        try_extract_test_config(vec![attr("test", vec![])]),
        Ok(Some(config(Some(4294967295), TestExpectation::Success, false)))
    );
}

#[test]
fn test_with_all_attributes() {
    let attrs = vec![
        attr("ignore", vec![]),
        attr("should_panic", vec![expected(vec![
            TupleElement::Literal(Felt252::from(5)),
            TupleElement::ShortString(Felt252::from(0x6f6b)),
        ])]),
        attr("available_gas", vec![unnamed(ArgValue::Literal { value: Some(1000) })]),
        attr("test", vec![]),
    ];
    assert_eq!(
        try_extract_test_config(attrs),
        Ok(Some(config(
            Some(1000),
            TestExpectation::Panics(PanicExpectation::Exact(vec![
                Felt252::from(5),
                Felt252::from(0x6f6b),
            ])),
            true,
        )))
    );
}

#[test]
fn static_gas_is_no_gas_limit() {
    let attrs = vec![
        attr("test", vec![]),
        attr("available_gas", vec![unnamed(ArgValue::Path { text: "static".to_string() })]),
    ];
    assert_eq!(
        try_extract_test_config(attrs),
        Ok(Some(config(None, TestExpectation::Success, false)))
    );
}

#[test]
fn should_panic_without_arguments_accepts_any_panic() {
    let attrs = vec![attr("test", vec![]), attr("should_panic", vec![])];
    assert_eq!(
        try_extract_test_config(attrs),
        Ok(Some(config(
            Some(4294967295),
            TestExpectation::Panics(PanicExpectation::Any),
            false
        )))
    );
}

#[test]
fn empty_tuple_expects_no_panic_values() {
    let attrs = vec![attr("test", vec![]), attr("should_panic", vec![expected(vec![])])];
    assert_eq!(
        try_extract_test_config(attrs),
        Ok(Some(config(
            Some(4294967295),
            TestExpectation::Panics(PanicExpectation::Exact(vec![])),
            false
        )))
    );
}

#[test]
fn first_attribute_of_a_name_counts() {
    let attrs = vec![
        attr("test", vec![]),
        attr("available_gas", vec![unnamed(ArgValue::Literal { value: Some(1) })]),
        attr("available_gas", vec![unnamed(ArgValue::Literal { value: Some(2) })]),
    ];
    assert_eq!(
        try_extract_test_config(attrs),
        Ok(Some(config(Some(1), TestExpectation::Success, false)))
    );
}

#[test]
fn test_attribute_takes_no_arguments() {
    let attrs = vec![attr("test", vec![unnamed(ArgValue::Other)])];
    assert_eq!(
        try_extract_test_config(attrs),
        Err(vec![diagnostic(0, AttributePart::Id, DiagnosticKind::UnexpectedArguments)])
    );
}

#[test]
fn attributes_of_tests_stand_on_tests_only() {
    let attrs = vec![
        attr("should_panic", vec![]),
        attr("available_gas", vec![unnamed(ArgValue::Literal { value: Some(1) })]),
        attr("ignore", vec![]),
    ];
    assert_eq!(
        try_extract_test_config(attrs),
        Err(vec![
            diagnostic(2, AttributePart::Id, DiagnosticKind::OnlyOnTests),
            diagnostic(1, AttributePart::Id, DiagnosticKind::OnlyOnTests),
            diagnostic(0, AttributePart::Id, DiagnosticKind::OnlyOnTests),
        ])
    );
}

#[test]
fn diagnostics_come_in_the_order_of_the_checks() {
    let attrs = vec![
        attr("should_panic", vec![unnamed(ArgValue::Other)]),
        attr("available_gas", vec![]),
        attr("ignore", vec![unnamed(ArgValue::Other)]),
        attr("test", vec![unnamed(ArgValue::Other)]),
    ];
    assert_eq!(
        try_extract_test_config(attrs),
        Err(vec![
            diagnostic(3, AttributePart::Id, DiagnosticKind::UnexpectedArguments),
            diagnostic(2, AttributePart::Id, DiagnosticKind::UnexpectedArguments),
            diagnostic(1, AttributePart::Args, DiagnosticKind::MalformedAvailableGas),
            diagnostic(0, AttributePart::Args, DiagnosticKind::MalformedExpectedPanic),
        ])
    );
}

#[test]
fn malformed_gas_is_reported() {
    let malformed = vec![
        vec![],
        vec![unnamed(ArgValue::Literal { value: None })],
        vec![unnamed(ArgValue::Path { text: "dynamic".to_string() })],
        vec![unnamed(ArgValue::Tuple { elements: vec![] })],
        vec![AttributeArg::Named {
            name: "gas".to_string(),
            value: ArgValue::Literal { value: Some(1) },
        }],
        vec![unnamed(ArgValue::Literal { value: Some(1) }), unnamed(ArgValue::Literal { value: Some(2) })],
        vec![AttributeArg::Other],
    ];
    for args in malformed {
        let attrs = vec![attr("test", vec![]), attr("available_gas", args)];
        assert_eq!(
            try_extract_test_config(attrs),
            Err(vec![diagnostic(1, AttributePart::Args, DiagnosticKind::MalformedAvailableGas)])
        );
    }
}

#[test]
fn malformed_expected_panic_is_reported() {
    let malformed = vec![
        vec![unnamed(ArgValue::Tuple { elements: vec![] })],
        vec![AttributeArg::Named {
            name: "expect".to_string(),
            value: ArgValue::Tuple { elements: vec![] },
        }],
        vec![AttributeArg::Named {
            name: "expected".to_string(),
            value: ArgValue::Literal { value: Some(1) },
        }],
        vec![expected(vec![TupleElement::Literal(Felt252::from(1)), TupleElement::Other])],
        vec![expected(vec![]), expected(vec![])],
    ];
    for args in malformed {
        let attrs = vec![attr("test", vec![]), attr("should_panic", args)];
        assert_eq!(
            try_extract_test_config(attrs),
            Err(vec![diagnostic(1, AttributePart::Args, DiagnosticKind::MalformedExpectedPanic)])
        );
    }
}

#[test]
fn diagnostics_have_their_texts() {
    assert_eq!(
        DiagnosticKind::UnexpectedArguments.message(),
        "Attribute should not have arguments."
    );
    assert_eq!(DiagnosticKind::OnlyOnTests.message(), "Attribute should only appear on tests.");
    assert_eq!(
        DiagnosticKind::MalformedAvailableGas.message(),
        "Attribute should have a single numeric literal argument or `static`."
    );
    assert_eq!(
        DiagnosticKind::MalformedExpectedPanic.message(),
        "Expected panic must be of the form `expected: <tuple of felt252s>`."
    );
}
