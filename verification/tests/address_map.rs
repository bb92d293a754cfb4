use core_service::gateway::address_map::{
    address_from_captures, restore, AddressMapper, AddressMappingRule, MappingError,
    PlaceholderCaptures,
};
use core_service::models::Address;

fn sample_address() -> Address {
    Address {
        country: "DE".into(),
        organization: "Bundespost".into(),
        surname: "M\u{fc}ller".into(),
    }
}

fn address(country: &str, organization: &str, surname: &str) -> Address {
    Address {
        country: country.into(),
        organization: organization.into(),
        surname: surname.into(),
    }
}

#[test]
fn rule_renders_email() {
    let rule = AddressMappingRule::new("{G}.{S}@{O}.{C}.example");
    let email = rule.apply(&sample_address()).unwrap();
    assert_eq!(email, "muller.muller@bundespost.de.example");
}

#[test]
fn mapper_uses_rules() {
    let mapper = AddressMapper::new(vec![AddressMappingRule::new("{S}@example.com")], Vec::new());
    let email = mapper.map_or_to_rfc822(&sample_address()).unwrap();
    assert_eq!(email, "muller@example.com");
}

#[test]
fn mapper_inverse_rule() {
    let mapper = AddressMapper::new(vec![AddressMappingRule::new("{S}@example.com")], Vec::new());
    let address = mapper.map_rfc822_to_or("muller@example.com").unwrap();
    assert_eq!(address.country, "XX");
    assert_eq!(address.organization, "UNKNOWN");
    assert_eq!(address.surname, "Muller");
}

#[test]
fn mapper_alias_roundtrip() {
    let mut aliases = Vec::new();
    aliases.push((
        "C=DE;O=Bundespost;S=Mueller".into(),
        "hans.mueller@example.com".into(),
    ));
    let mapper = AddressMapper::new(vec![], aliases);
    let address = mapper.map_rfc822_to_or("hans.mueller@example.com").unwrap();
    assert_eq!(address.country, "DE");
    assert_eq!(address.organization, "Bundespost");
    assert_eq!(address.surname, "Mueller");
}

#[test]
fn rule_renders_plain_fields() {
    let rule = AddressMappingRule::new("{S}.{O}@{C}.example");
    let email = rule.apply(&address("DE", "Modernization", "Operator"));
    assert_eq!(email, Some("operator.modernization@de.example".to_string()));
}

#[test]
fn alias_is_returned_verbatim() {
    let aliases = vec![(
        "C=DE;O=Bundespost;S=Mueller".to_string(),
        "Hans.Mueller@Example.COM".to_string(),
    )];
    let mapper = AddressMapper::new(vec![AddressMappingRule::new("{S}@example.com")], aliases);
    let email = mapper.map_or_to_rfc822(&address("DE", "Bundespost", "Mueller"));
    assert_eq!(email, Ok("Hans.Mueller@Example.COM".to_string()));
    let back = mapper.map_rfc822_to_or("hans.mueller@EXAMPLE.com").unwrap();
    assert_eq!(back, address("DE", "Bundespost", "Mueller"));
}

#[test]
fn later_alias_overrides_earlier() {
    let aliases = vec![
        ("C=DE;O=A;S=B".to_string(), "first@example.com".to_string()),
        ("C=DE;O=A;S=B".to_string(), "second@example.com".to_string()),
        ("C=FR;O=X;S=Y".to_string(), "Second@Example.com".to_string()),
    ];
    let mapper = AddressMapper::new(vec![], aliases);
    assert_eq!(
        mapper.map_or_to_rfc822(&address("DE", "A", "B")),
        Ok("second@example.com".to_string())
    );
    assert_eq!(
        mapper.map_rfc822_to_or("second@example.com"),
        Ok(address("FR", "X", "Y"))
    );
}

#[test]
fn mapping_without_alias_or_rule_fails() {
    let mapper = AddressMapper::new(vec![], Vec::new());
    assert_eq!(
        mapper.map_or_to_rfc822(&address("DE", "Org", "Name")),
        Err(MappingError::NoMatch)
    );
    assert_eq!(
        mapper.map_rfc822_to_or("nobody@example.com"),
        Err(MappingError::NoMatch)
    );
}

#[test]
fn alias_without_country_is_missing() {
    let aliases = vec![("O=Org;S=Name".to_string(), "name@example.com".to_string())];
    let mapper = AddressMapper::new(vec![AddressMappingRule::new("{S}@example.com")], aliases);
    assert_eq!(
        mapper.map_rfc822_to_or("name@example.com"),
        Err(MappingError::AliasMissing)
    );
}

#[test]
fn alias_part_without_separator_is_missing() {
    let aliases = vec![("C=DE;S=Name;junk".to_string(), "name@example.com".to_string())];
    let mapper = AddressMapper::new(vec![], aliases);
    assert_eq!(
        mapper.map_rfc822_to_or("name@example.com"),
        Err(MappingError::AliasMissing)
    );
}

#[test]
fn parse_alias_reads_keys_without_case_and_defaults_organization() {
    let parsed = AddressMapper::parse_alias(" c = DE ; s = Name ; x = ignored ");
    assert_eq!(parsed, Some(address("DE", "UNKNOWN", "Name")));
    let parsed = AddressMapper::parse_alias("C=DE;O=;S=Name;O=Org");
    assert_eq!(parsed, Some(address("DE", "Org", "Name")));
    assert_eq!(AddressMapper::parse_alias("C=DE;O=Org"), None);
}

#[test]
fn first_matching_rule_wins() {
    let mapper = AddressMapper::new(
        vec![
            AddressMappingRule::new("{S}@{X}.example"),
            AddressMappingRule::new("{S}@first.example"),
            AddressMappingRule::new("{S}@second.example"),
        ],
        Vec::new(),
    );
    assert_eq!(
        mapper.map_or_to_rfc822(&address("DE", "Org", "Name")),
        Ok("name@first.example".to_string())
    );
    assert_eq!(
        mapper.map_rfc822_to_or("name@second.example"),
        Ok(address("XX", "UNKNOWN", "Name"))
    );
}

#[test]
fn unknown_placeholder_renders_nothing() {
    let rule = AddressMappingRule::new("{S}@{X}.example");
    assert_eq!(rule.apply(&address("DE", "Org", "Name")), None);
    let rule = AddressMappingRule::new("{S}@{example");
    assert_eq!(rule.apply(&address("DE", "Org", "Name")), None);
}

#[test]
fn sanitize_decomposes_and_replaces() {
    assert_eq!(AddressMappingRule::sanitize("M\u{fc}ller"), "muller");
    assert_eq!(AddressMappingRule::sanitize("Jean Pierre"), "jean-pierre");
    assert_eq!(AddressMappingRule::sanitize("O'Neil_3"), "o-neil-3");
    assert_eq!(AddressMappingRule::sanitize("\u{fb01}x\u{3a9}"), "fix");
    assert_eq!(AddressMappingRule::sanitize("M\u{c3}\u{bc}ller"), "ma14ller");
    assert_eq!(AddressMappingRule::sanitize(""), "");
}

#[test]
fn restore_capitalizes_words() {
    assert_eq!(restore("jean-pierre"), "Jean Pierre");
    assert_eq!(restore("muller"), "Muller");
    assert_eq!(restore("-a--b-"), "A B");
    assert_eq!(restore("--"), "");
    assert_eq!(restore("9lives"), "9lives");
}

#[test]
fn captures_fall_back_to_defaults() {
    let none = PlaceholderCaptures {
        given: None,
        surname: None,
        organization: None,
        country: None,
    };
    assert_eq!(address_from_captures(&none), address("XX", "UNKNOWN", "User"));
    let given = PlaceholderCaptures {
        given: Some("anna-maria".into()),
        surname: None,
        organization: Some("acme".into()),
        country: Some("de".into()),
    };
    assert_eq!(address_from_captures(&given), address("De", "Acme", "Anna Maria"));
    let both = PlaceholderCaptures {
        given: Some("anna".into()),
        surname: Some("smith".into()),
        organization: None,
        country: None,
    };
    assert_eq!(address_from_captures(&both).surname, "Smith");
}

#[test]
fn pattern_escapes_the_template() {
    let rule = AddressMappingRule::new("{S}.{O}@{C}.example");
    assert_eq!(
        rule.as_regex(),
        "^(?P<S>[a-z0-9-]+)\\.(?P<O>[a-z0-9-]+)@(?P<C>[a-z0-9-]+)\\.example$"
    );
    let rule = AddressMappingRule::new("a+b-{G}");
    assert_eq!(rule.as_regex(), "^a\\+b\\-(?P<G>[a-z0-9-]+)$");
}

#[test]
fn invert_rebuilds_fields() {
    let rule = AddressMappingRule::new("{G}.{S}@{O}.{C}.example");
    let inverted = rule.invert("jean-pierre.jean-pierre@bundespost.de.example");
    assert_eq!(inverted, Some(address("De", "Bundespost", "Jean Pierre")));
    assert_eq!(rule.invert("Jean.Pierre@bundespost.de.example"), None);
    assert_eq!(rule.invert("a.b@c.d.example.org"), None);
}

#[test]
fn invert_fails_on_repeated_placeholder() {
    let rule = AddressMappingRule::new("{S}.{S}@example.com");
    assert_eq!(rule.invert("a.a@example.com"), None);
}

#[test]
fn apply_after_invert_reproduces_the_email() {
    let rule = AddressMappingRule::new("{G}.{S}@{O}.{C}.example");
    let first = address("DE", "Deutsche Bundespost", "Jean Pierre");
    let email = rule.apply(&first).unwrap();
    assert_eq!(email, "jean-pierre.jean-pierre@deutsche-bundespost.de.example");
    let inverted = rule.invert(&email).unwrap();
    assert_eq!(inverted, address("De", "Deutsche Bundespost", "Jean Pierre"));
    assert_eq!(rule.apply(&inverted), Some(email));
}

#[test]
fn apply_after_invert_differs_after_double_space() {
    let rule = AddressMappingRule::new("{G}.{S}@{O}.{C}.example");
    let first = address("DE", "Org", "Jean  Pierre");
    let email = rule.apply(&first).unwrap();
    assert_eq!(email, "jean--pierre.jean--pierre@org.de.example");
    let inverted = rule.invert(&email).unwrap();
    assert_eq!(inverted.surname, "Jean Pierre");
    assert_eq!(
        rule.apply(&inverted),
        Some("jean-pierre.jean-pierre@org.de.example".to_string())
    );
}

#[test]
fn default_mapper_has_no_rules_and_no_aliases() {
    let mapper = AddressMapper::default();
    assert_eq!(
        mapper.map_or_to_rfc822(&address("DE", "Org", "Name")),
        Err(MappingError::NoMatch)
    );
    assert_eq!(mapper.map_rfc822_to_or("name@example.com"), Err(MappingError::NoMatch));
}

#[test]
fn groups_are_matched_by_their_names() {
    let rule = AddressMappingRule::new("{C}+{O}+{S}+{G}");
    let captures = core_service::gateway::address_map::match_placeholders(
        &rule.as_regex(),
        "de+acme+smith+anna",
    )
    .unwrap();
    assert_eq!(
        captures,
        PlaceholderCaptures {
            given: Some("anna".into()),
            surname: Some("smith".into()),
            organization: Some("acme".into()),
            country: Some("de".into()),
        }
    );
    let partial = core_service::gateway::address_map::match_placeholders("^(?P<O>[a-z]+)$", "acme")
        .unwrap();
    assert_eq!(partial.organization.as_deref(), Some("acme"));
    assert_eq!(partial.given, None);
    assert_eq!(
        core_service::gateway::address_map::match_placeholders("^(?P<O>[a-z]+)$", "ACME"),
        None
    );
    assert_eq!(core_service::gateway::address_map::match_placeholders("(", "x"), None);
}
