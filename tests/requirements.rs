use pyver::{
    parse_requirement, parse_version, ParseError, PyRequirements, PyRequirementsModule,
    PyRequirementsOperator, RequirementError,
};

#[test]
fn check_py_requirements_operator() {
    let eq = PyRequirementsOperator::new("==").unwrap();
    let gt = PyRequirementsOperator::new(">=").unwrap();
    let lt = PyRequirementsOperator::new("<=").unwrap();

    let e1 = PyRequirementsOperator::new("AMOGUSSSSSSSSSSSSS");

    assert_eq!(eq, PyRequirementsOperator::EqualTo);
    assert_eq!(gt, PyRequirementsOperator::GreaterThan);
    assert_eq!(lt, PyRequirementsOperator::LesserThan);

    assert!(e1.is_err(), "e1 is supposed to be an Error!");
}

#[test]
fn check_py_requirements_line_parser() {
    let sample = "Pygments==2.11.2";
    let line = PyRequirementsModule::new(&sample);

    assert!(
        line.is_ok(),
        "Failed to parse line: {:?}",
        line.unwrap_err()
    );
    let res = line.unwrap();

    assert_eq!(res.package, "Pygments");
    assert_eq!(res.version.to_string(), "2.11.2");
    assert_eq!(res.operator, PyRequirementsOperator::EqualTo);
}

#[test]
fn operator_tokens_and_defaults() {
    for bad in ["", "=", "!=", "=>", "===", "<"] {
        assert!(matches!(
            PyRequirementsOperator::new(bad),
            Err(RequirementError::UnknownOperator)
        ));
    }
    assert_eq!(PyRequirementsOperator::default(), PyRequirementsOperator::EqualTo);
    assert_eq!(PyRequirementsOperator::GreaterThan.to_string(), ">=");
    assert_eq!(PyRequirementsOperator::LesserThan.to_string(), "<=");
    assert_eq!(PyRequirementsOperator::EqualTo.to_string(), "==");
}

#[test]
fn requirement_names_package_operator_version() {
    let r = parse_requirement("Pygments==2.11.2").unwrap();
    assert_eq!(r.package, "Pygments");
    assert_eq!(r.operator, PyRequirementsOperator::EqualTo);
    assert!(r.version == parse_version("2.11.2").unwrap());
    assert_eq!(r.to_string(), "Pygments == 2.11.2");

    let r = parse_requirement("  numpy >=1.2").unwrap();
    assert_eq!(r.package, "numpy");
    assert_eq!(r.operator, PyRequirementsOperator::GreaterThan);
    assert_eq!(r.version.release.minor, 2);

    let r = parse_requirement("a=b<=1.0").unwrap();
    assert_eq!(r.package, "a=b");
    assert_eq!(r.operator, PyRequirementsOperator::LesserThan);
    match parse_requirement("a<=b==1.0") {
        Err(RequirementError::InvalidVersion(ParseError::Malformed(s))) => assert_eq!(s, "b==1.0"),
        other => panic!("{:?}", other),
    }
}

#[test]
fn requirement_errors() {
    assert!(matches!(parse_requirement("numpy"), Err(RequirementError::UnknownOperator)));
    assert!(matches!(parse_requirement("numpy!=1.0"), Err(RequirementError::UnknownOperator)));
    assert!(matches!(parse_requirement(" \t==1.0"), Err(RequirementError::EmptyPackageName)));
    match parse_requirement("numpy==one") {
        Err(RequirementError::InvalidVersion(ParseError::Malformed(s))) => assert_eq!(s, "one"),
        other => panic!("{:?}", other),
    }
    assert!(matches!(
        parse_requirement("numpy==1.99999999999"),
        Err(RequirementError::InvalidVersion(ParseError::InvalidNumber(_)))
    ));
    assert!(matches!(
        parse_requirement("numpy== 1.0"),
        Err(RequirementError::InvalidVersion(_))
    ));
}

#[test]
fn file_keeps_valid_lines_and_reports_the_rest() {
    let text = "Pygments==2.11.2\nbroken line\n\nnumpy>=1.0\r\n   \nscipy==x\nrequests<=2.0";
    let f = PyRequirements::from_text("requirements.txt", text);
    assert_eq!(f.file, "requirements.txt");
    let names: Vec<&str> = f.requirements.iter().map(|m| m.package.as_str()).collect();
    assert_eq!(names, vec!["Pygments", "numpy", "requests"]);
    assert_eq!(f.requirements[1].version.to_string(), "1.0");
    assert_eq!(f.diagnostics.len(), 2);
    assert_eq!(f.diagnostics[0].line, 1);
    assert!(matches!(f.diagnostics[0].error, RequirementError::UnknownOperator));
    assert_eq!(f.diagnostics[1].line, 5);
    assert!(matches!(f.diagnostics[1].error, RequirementError::InvalidVersion(_)));
}

#[test]
fn file_of_n_valid_and_m_malformed_lines() {
    let mut text = String::new();
    let mut expected = Vec::new();
    for k in 0..12u32 {
        if k % 3 == 1 {
            text.push_str("==\n");
        } else {
            text.push_str(&format!("pkg{}=={}.{}\n", k, k, k + 1));
            expected.push(format!("pkg{}", k));
        }
    }
    let f = PyRequirements::from_text("r.txt", &text);
    assert_eq!(f.requirements.len(), 8);
    assert_eq!(f.diagnostics.len(), 4);
    let names: Vec<String> = f.requirements.iter().map(|m| m.package.clone()).collect();
    assert_eq!(names, expected);
    for d in &f.diagnostics {
        assert!(matches!(d.error, RequirementError::EmptyPackageName));
    }
}

#[test]
fn empty_and_blank_files() {
    let f = PyRequirements::from_text("r.txt", "");
    assert!(f.requirements.is_empty() && f.diagnostics.is_empty());
    let f = PyRequirements::from_text("r.txt", "\n \n\t\r\n");
    assert!(f.requirements.is_empty() && f.diagnostics.is_empty());
}

#[test]
fn vertical_tab_alone_is_no_package_name() {
    assert!(matches!(
        parse_requirement("\u{b}==1.0"),
        Err(RequirementError::EmptyPackageName)
    ));
    assert!(matches!(
        parse_requirement("\u{a0}\u{3000}>=1.0"),
        Err(RequirementError::EmptyPackageName)
    ));
}

#[test]
fn unicode_white_space_is_trimmed_from_package() {
    let r = parse_requirement("\u{b}p==1.0").unwrap();
    assert_eq!(r.package, "p");
    let r = parse_requirement("\u{2003}numpy\u{a0}\u{85}<=2.0").unwrap();
    assert_eq!(r.package, "numpy");
    let r = parse_requirement("a\u{a0}b==1.0").unwrap();
    assert_eq!(r.package, "a\u{a0}b");
}

#[test]
fn unicode_white_space_lines_are_blank() {
    let text = "\u{b}\nx==1.0\n\u{a0}\n\u{2028}\u{3000}\r\n";
    let f = PyRequirements::from_text("r.txt", text);
    assert_eq!(f.requirements.len(), 1);
    assert_eq!(f.requirements[0].package, "x");
    assert!(f.diagnostics.is_empty());
}
