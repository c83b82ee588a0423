use ferrous_di::capabilities::discovery::{discover_tools, name_lt, RequirementFacts, ToolFacts};

fn tool(name: &str, tags: &[&str], satisfies: &[bool]) -> ToolFacts {
    ToolFacts {
        name: name.to_string(),
        tags: tags.iter().map(|t| t.to_string()).collect(),
        satisfies: satisfies.to_vec(),
    }
}

#[test]
fn matching_tools_are_listed_by_name_and_limited() {
    let tools = vec![tool("search", &[], &[true]), tool("calc", &[], &[true]), tool("mail", &[], &[false])];
    let reqs = vec![RequirementFacts { required: true }];
    let all = discover_tools(&tools, &reqs, &vec![], &vec![], None);
    assert_eq!(all.matching, vec![1, 0]);
    assert!(all.partial.is_empty());
    assert!(all.unsatisfied.is_empty());
    let limited = discover_tools(&tools, &reqs, &vec![], &vec![], Some(1));
    assert_eq!(limited.matching, vec![1]);
}

#[test]
fn unsatisfied_required_capabilities_are_reported() {
    let tools = vec![tool("a", &[], &[false, true, false])];
    let reqs = vec![
        RequirementFacts { required: true },
        RequirementFacts { required: false },
        RequirementFacts { required: true },
    ];
    let r = discover_tools(&tools, &reqs, &vec![], &vec![], None);
    assert_eq!(r.unsatisfied, vec![0, 2]);
    assert!(r.matching.is_empty());
}

#[test]
fn partial_matches_satisfy_some_preferences() {
    let tools = vec![tool("x", &[], &[true, false, false]), tool("y", &[], &[true, true, false])];
    let reqs = vec![
        RequirementFacts { required: false },
        RequirementFacts { required: false },
        RequirementFacts { required: false },
    ];
    let r = discover_tools(&tools, &reqs, &vec![], &vec![], None);
    assert_eq!(r.partial, vec![0]);
    assert_eq!(r.matching, vec![1]);
}

#[test]
fn tags_qualify_and_disqualify() {
    let tools = vec![
        tool("a", &["fast"], &[]),
        tool("b", &["fast", "beta"], &[]),
        tool("c", &[], &[]),
    ];
    let r = discover_tools(&tools, &vec![], &vec!["fast".to_string()], &vec!["beta".to_string()], None);
    assert_eq!(r.matching, vec![0]);
}

#[test]
fn equal_names_keep_registration_order() {
    let tools = vec![tool("same", &[], &[]), tool("same", &[], &[]), tool("earlier", &[], &[])];
    let r = discover_tools(&tools, &vec![], &vec![], &vec![], None);
    assert_eq!(r.matching, vec![2, 0, 1]);
}

#[test]
fn names_compare_by_characters() {
    assert!(name_lt("abc", "abd"));
    assert!(name_lt("ab", "abc"));
    assert!(!name_lt("abc", "abc"));
    assert!(!name_lt("b", "abc"));
    assert!(name_lt("Z", "a"));
}
