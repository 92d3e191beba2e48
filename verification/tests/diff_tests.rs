use discovery_tracker::change::ChangeSet;
use discovery_tracker::diff_engine::DiffEngine;
use discovery_tracker::document::{
    DiscoveryDocument, EnumSchema, Method, ObjectSchema, Parameter, Property, Request, Resource,
    Response, Schema,
};
use discovery_tracker::value::ChangeValue;

fn create_test_document() -> DiscoveryDocument {
    DiscoveryDocument {
        description: Some("Test API".to_string()),
        title: Some("Test".to_string()),
        discovery_version: Some("v1".to_string()),
        revision: Some("20210101".to_string()),
        owner_domain: Some("example.com".to_string()),
        base_url: Some("https://api.example.com/".to_string()),
        documentation_link: Some("https://docs.example.com/".to_string()),
        schemas: Some(Vec::new()),
        resources: Some(Vec::new()),
    }
}

fn diff(old: &DiscoveryDocument, new: &DiscoveryDocument) -> ChangeSet {
    DiffEngine::new().diff(old, new, "example.googleapis.com")
}

#[test]
fn test_deletion_with_old_value() {
    let mut old_doc = create_test_document();
    let mut new_doc = create_test_document();

    old_doc.base_url = Some("https://api.example.com/".to_string());
    new_doc.base_url = None;

    let change_set = diff(&old_doc, &new_doc);

    assert_eq!(change_set.modifications.len(), 0);
    assert_eq!(change_set.additions.len(), 0);
    assert_eq!(change_set.deletions.len(), 1);

    let deletion = &change_set.deletions[0];
    assert_eq!(deletion.path, "baseUrl");
    assert!(
        matches!(&deletion.old_value, Some(ChangeValue::Str(s)) if s == "https://api.example.com/")
    );
    assert!(deletion.value.is_none());
    assert!(deletion.new_value.is_none());
}

#[test]
fn test_top_level_changes() {
    let old_doc = create_test_document();
    let mut new_doc = create_test_document();

    new_doc.description = Some("Updated Test API".to_string());
    new_doc.revision = Some("20210102".to_string());
    new_doc.base_url = None;

    let change_set = diff(&old_doc, &new_doc);

    assert_eq!(change_set.modifications.len(), 2);
    assert_eq!(change_set.additions.len(), 0);
    assert_eq!(change_set.deletions.len(), 1);

    assert!(change_set.modifications.iter().any(|c| c.path == "description"));
    assert!(change_set.modifications.iter().any(|c| c.path == "revision"));
    assert!(change_set.deletions.iter().any(|c| c.path == "baseUrl"));
}

#[test]
fn test_schema_changes() {
    let mut old_doc = create_test_document();
    let mut new_doc = create_test_document();

    let old_schema = Schema::Object(ObjectSchema {
        properties: Some(Vec::new()),
        schema_type: Some("object".to_string()),
        id: Some("TestObject".to_string()),
    });

    let new_schema = Schema::Object(ObjectSchema {
        properties: Some(vec![(
            "new_property".to_string(),
            Property {
                property_type: Some("string".to_string()),
                reference: None,
                format: None,
                description: Some("A new property".to_string()),
            },
        )]),
        schema_type: Some("object".to_string()),
        id: Some("TestObject".to_string()),
    });

    old_doc.schemas.as_mut().unwrap().push(("TestSchema".to_string(), old_schema));
    new_doc.schemas.as_mut().unwrap().push(("TestSchema".to_string(), new_schema));

    let change_set = diff(&old_doc, &new_doc);

    assert_eq!(change_set.modifications.len(), 0);
    assert_eq!(change_set.additions.len(), 1);
    assert_eq!(change_set.deletions.len(), 0);

    assert!(change_set
        .additions
        .iter()
        .any(|c| c.path == "/schemas/TestSchema/properties/new_property"));
}

#[test]
fn test_resource_changes() {
    let mut old_doc = create_test_document();
    let mut new_doc = create_test_document();

    let old_resource = Resource { methods: Some(Vec::new()) };

    let new_method = Method {
        id: "test.new".to_string(),
        path: "test/new".to_string(),
        http_method: "POST".to_string(),
        description: Some("A new method".to_string()),
        parameters: Some(Vec::new()),
        request: Some(Request { reference: Some("TestRequest".to_string()) }),
        response: Some(Response { reference: Some("TestResponse".to_string()) }),
        scopes: Some(vec!["https://www.googleapis.com/auth/test".to_string()]),
    };

    let new_resource = Resource {
        methods: Some(vec![("newMethod".to_string(), new_method)]),
    };

    old_doc.resources.as_mut().unwrap().push(("TestResource".to_string(), old_resource));
    new_doc.resources.as_mut().unwrap().push(("TestResource".to_string(), new_resource));

    let change_set = diff(&old_doc, &new_doc);

    assert_eq!(change_set.modifications.len(), 0);
    assert_eq!(change_set.additions.len(), 1);
    assert_eq!(change_set.deletions.len(), 0);

    assert!(change_set
        .additions
        .iter()
        .any(|c| c.path == "/resources/TestResource/methods/newMethod"));
}

#[test]
fn test_enum_schema_changes() {
    let mut old_doc = create_test_document();
    let mut new_doc = create_test_document();

    let old_schema = Schema::Enum(EnumSchema {
        properties: Some(Vec::new()),
        schema_type: Some("string".to_string()),
        id: Some("TestEnum".to_string()),
        enumeration: vec!["VALUE1".to_string(), "VALUE2".to_string()],
        enum_descriptions: Some(vec!["Description 1".to_string(), "Description 2".to_string()]),
    });

    let new_schema = Schema::Enum(EnumSchema {
        properties: Some(Vec::new()),
        schema_type: Some("string".to_string()),
        id: Some("TestEnum".to_string()),
        enumeration: vec!["VALUE1".to_string(), "VALUE2".to_string(), "VALUE3".to_string()],
        enum_descriptions: Some(vec![
            "Description 1".to_string(),
            "Updated Description 2".to_string(),
            "Description 3".to_string(),
        ]),
    });

    old_doc.schemas.as_mut().unwrap().push(("TestEnumSchema".to_string(), old_schema));
    new_doc.schemas.as_mut().unwrap().push(("TestEnumSchema".to_string(), new_schema));

    let change_set = diff(&old_doc, &new_doc);

    assert_eq!(change_set.modifications.len(), 2);
    assert_eq!(change_set.additions.len(), 0);
    assert_eq!(change_set.deletions.len(), 0);

    assert!(change_set
        .modifications
        .iter()
        .any(|c| c.path == "/schemas/TestEnumSchema/enumeration"));
    assert!(change_set
        .modifications
        .iter()
        .any(|c| c.path == "/schemas/TestEnumSchema/enumDescriptions"));
}

#[test]
fn test_method_parameter_changes() {
    let mut old_doc = create_test_document();
    let mut new_doc = create_test_document();

    let old_method = Method {
        id: "test.method".to_string(),
        path: "test/method".to_string(),
        http_method: "GET".to_string(),
        description: Some("Test method".to_string()),
        parameters: Some(vec![(
            "oldParam".to_string(),
            Parameter {
                param_type: Some("string".to_string()),
                description: Some("Old parameter".to_string()),
                required: Some(true),
                location: Some("query".to_string()),
            },
        )]),
        request: None,
        response: Some(Response { reference: Some("TestResponse".to_string()) }),
        scopes: Some(vec!["https://www.googleapis.com/auth/test".to_string()]),
    };

    let mut new_method = old_method.clone();
    new_method.parameters = Some(vec![(
        "newParam".to_string(),
        Parameter {
            param_type: Some("integer".to_string()),
            description: Some("New parameter".to_string()),
            required: Some(false),
            location: Some("query".to_string()),
        },
    )]);

    old_doc.resources.as_mut().unwrap().push((
        "TestResource".to_string(),
        Resource { methods: Some(vec![("testMethod".to_string(), old_method)]) },
    ));

    new_doc.resources.as_mut().unwrap().push((
        "TestResource".to_string(),
        Resource { methods: Some(vec![("testMethod".to_string(), new_method)]) },
    ));

    let change_set = diff(&old_doc, &new_doc);

    assert_eq!(change_set.modifications.len(), 0);
    assert_eq!(change_set.additions.len(), 1);
    assert_eq!(change_set.deletions.len(), 1);

    assert!(change_set
        .deletions
        .iter()
        .any(|c| c.path == "/resources/TestResource/methods/testMethod/parameters/oldParam"));
    assert!(change_set
        .additions
        .iter()
        .any(|c| c.path == "/resources/TestResource/methods/testMethod/parameters/newParam"));
}

fn rich_test_document() -> DiscoveryDocument {
    let mut doc = create_test_document();
    doc.schemas.as_mut().unwrap().push((
        "Thing".to_string(),
        Schema::Object(ObjectSchema {
            properties: Some(vec![(
                "name".to_string(),
                Property {
                    property_type: Some("string".to_string()),
                    reference: None,
                    format: None,
                    description: None,
                },
            )]),
            schema_type: Some("object".to_string()),
            id: Some("Thing".to_string()),
        }),
    ));
    doc.resources.as_mut().unwrap().push((
        "things".to_string(),
        Resource {
            methods: Some(vec![(
                "list".to_string(),
                Method {
                    id: "things.list".to_string(),
                    path: "things".to_string(),
                    http_method: "GET".to_string(),
                    description: None,
                    parameters: Some(vec![(
                        "pageToken".to_string(),
                        Parameter {
                            param_type: Some("string".to_string()),
                            description: None,
                            required: Some(false),
                            location: Some("query".to_string()),
                        },
                    )]),
                    request: None,
                    response: Some(Response { reference: Some("Thing".to_string()) }),
                    scopes: None,
                },
            )]),
        },
    ));
    doc
}

#[test]
fn diff_of_identical_documents_is_empty() {
    let a = rich_test_document();
    let b = rich_test_document();
    let change_set = diff(&a, &b);
    assert_eq!(change_set.modifications.len(), 0);
    assert_eq!(change_set.additions.len(), 0);
    assert_eq!(change_set.deletions.len(), 0);
    assert_eq!(change_set.service, "example.googleapis.com");
}

#[test]
fn added_top_level_field_and_back() {
    let mut a = create_test_document();
    a.title = None;
    let b = create_test_document();

    let forward = diff(&a, &b);
    assert_eq!(forward.additions.len(), 1);
    assert_eq!(forward.modifications.len(), 0);
    assert_eq!(forward.deletions.len(), 0);
    assert_eq!(forward.additions[0].path, "title");
    assert!(matches!(&forward.additions[0].value, Some(ChangeValue::Str(s)) if s == "Test"));
    assert!(forward.additions[0].old_value.is_none());

    let backward = diff(&b, &a);
    assert_eq!(backward.deletions.len(), 1);
    assert_eq!(backward.modifications.len(), 0);
    assert_eq!(backward.additions.len(), 0);
    assert_eq!(backward.deletions[0].path, "title");
    assert!(matches!(&backward.deletions[0].old_value, Some(ChangeValue::Str(s)) if s == "Test"));
    assert!(backward.deletions[0].value.is_none());
}

#[test]
fn schema_map_key_coverage() {
    let s1 = Schema::Object(ObjectSchema {
        properties: None,
        schema_type: Some("object".to_string()),
        id: Some("X".to_string()),
    });
    let s1_again = Schema::Object(ObjectSchema {
        properties: None,
        schema_type: Some("object".to_string()),
        id: Some("X".to_string()),
    });
    let s2 = Schema::Object(ObjectSchema {
        properties: None,
        schema_type: Some("object".to_string()),
        id: Some("Y".to_string()),
    });

    let mut old_doc = create_test_document();
    let mut new_doc = create_test_document();
    old_doc.schemas = Some(vec![("X".to_string(), s1)]);
    new_doc.schemas = Some(vec![("X".to_string(), s1_again), ("Y".to_string(), s2)]);

    let change_set = diff(&old_doc, &new_doc);
    assert_eq!(change_set.additions.len(), 1);
    assert_eq!(change_set.modifications.len(), 0);
    assert_eq!(change_set.deletions.len(), 0);
    assert_eq!(change_set.additions[0].path, "/schemas/Y");
    assert!(
        matches!(&change_set.additions[0].value, Some(ChangeValue::Schema(Schema::Object(o))) if o.id.as_deref() == Some("Y"))
    );
}

#[test]
fn enum_sequence_changes_as_a_whole() {
    let mut old_doc = create_test_document();
    let mut new_doc = create_test_document();
    old_doc.schemas = Some(vec![(
        "Color".to_string(),
        Schema::Enum(EnumSchema {
            properties: None,
            schema_type: Some("string".to_string()),
            id: Some("Color".to_string()),
            enumeration: vec!["RED".to_string(), "GREEN".to_string(), "BLUE".to_string()],
            enum_descriptions: None,
        }),
    )]);
    new_doc.schemas = Some(vec![(
        "Color".to_string(),
        Schema::Enum(EnumSchema {
            properties: None,
            schema_type: Some("string".to_string()),
            id: Some("Color".to_string()),
            enumeration: vec!["RED".to_string(), "YELLOW".to_string(), "BLUE".to_string()],
            enum_descriptions: None,
        }),
    )]);

    let change_set = diff(&old_doc, &new_doc);
    assert_eq!(change_set.modifications.len(), 1);
    assert_eq!(change_set.additions.len(), 0);
    assert_eq!(change_set.deletions.len(), 0);
    let m = &change_set.modifications[0];
    assert_eq!(m.path, "/schemas/Color/enumeration");
    assert!(
        matches!(&m.old_value, Some(ChangeValue::StrList(v)) if v == &vec!["RED".to_string(), "GREEN".to_string(), "BLUE".to_string()])
    );
    assert!(
        matches!(&m.new_value, Some(ChangeValue::StrList(v)) if v == &vec!["RED".to_string(), "YELLOW".to_string(), "BLUE".to_string()])
    );
}

#[test]
fn removed_resource_deletion_has_no_payload() {
    let old_doc = rich_test_document();
    let mut new_doc = rich_test_document();
    new_doc.resources.as_mut().unwrap().clear();

    let change_set = diff(&old_doc, &new_doc);
    assert_eq!(change_set.deletions.len(), 1);
    assert_eq!(change_set.additions.len(), 0);
    assert_eq!(change_set.modifications.len(), 0);
    let d = &change_set.deletions[0];
    assert_eq!(d.path, "/resources/things");
    assert!(d.value.is_none());
    assert!(d.old_value.is_none());
    assert!(d.new_value.is_none());
}

#[test]
fn whole_schema_map_added_and_removed() {
    let mut without = rich_test_document();
    without.schemas = None;
    let with = rich_test_document();

    let added = diff(&without, &with);
    assert_eq!(added.additions.len(), 1);
    assert_eq!(added.additions[0].path, "/schemas");
    assert!(matches!(&added.additions[0].value, Some(ChangeValue::SchemaMap(m)) if m.len() == 1));

    let removed = diff(&with, &without);
    assert_eq!(removed.deletions.len(), 1);
    assert_eq!(removed.deletions[0].path, "/schemas");
    assert!(
        matches!(&removed.deletions[0].old_value, Some(ChangeValue::SchemaMap(m)) if m.len() == 1)
    );
}

#[test]
fn removed_property_keeps_its_old_value() {
    let old_doc = rich_test_document();
    let mut new_doc = rich_test_document();
    if let Some((_, Schema::Object(o))) = new_doc.schemas.as_mut().unwrap().get_mut(0) {
        o.properties.as_mut().unwrap().clear();
    }

    let change_set = diff(&old_doc, &new_doc);
    assert_eq!(change_set.deletions.len(), 1);
    let d = &change_set.deletions[0];
    assert_eq!(d.path, "/schemas/Thing/properties/name");
    assert!(
        matches!(&d.old_value, Some(ChangeValue::Property(p)) if p.property_type.as_deref() == Some("string"))
    );
}

#[test]
fn removed_method_deletion_has_no_payload() {
    let old_doc = rich_test_document();
    let mut new_doc = rich_test_document();
    if let Some((_, r)) = new_doc.resources.as_mut().unwrap().get_mut(0) {
        r.methods.as_mut().unwrap().clear();
    }

    let change_set = diff(&old_doc, &new_doc);
    assert_eq!(change_set.deletions.len(), 1);
    let d = &change_set.deletions[0];
    assert_eq!(d.path, "/resources/things/methods/list");
    assert!(d.value.is_none());
    assert!(d.old_value.is_none());
    assert!(d.new_value.is_none());
}

#[test]
fn bare_documents_diff_to_nothing() {
    let bare = DiscoveryDocument {
        description: None,
        title: None,
        discovery_version: None,
        revision: None,
        owner_domain: None,
        base_url: None,
        documentation_link: None,
        schemas: None,
        resources: None,
    };
    let other = DiscoveryDocument {
        description: None,
        title: None,
        discovery_version: None,
        revision: None,
        owner_domain: None,
        base_url: None,
        documentation_link: None,
        schemas: None,
        resources: None,
    };
    let change_set = diff(&bare, &other);
    assert!(change_set.modifications.is_empty());
    assert!(change_set.additions.is_empty());
    assert!(change_set.deletions.is_empty());
}

#[test]
fn variant_mismatch_is_one_modification() {
    let mut old_doc = create_test_document();
    let mut new_doc = create_test_document();
    old_doc.schemas = Some(vec![(
        "S".to_string(),
        Schema::Object(ObjectSchema {
            properties: None,
            schema_type: Some("object".to_string()),
            id: None,
        }),
    )]);
    new_doc.schemas = Some(vec![(
        "S".to_string(),
        Schema::Enum(EnumSchema {
            properties: None,
            schema_type: Some("string".to_string()),
            id: None,
            enumeration: vec!["A".to_string()],
            enum_descriptions: None,
        }),
    )]);

    let change_set = diff(&old_doc, &new_doc);
    assert_eq!(change_set.modifications.len(), 1);
    assert_eq!(change_set.additions.len(), 0);
    assert_eq!(change_set.deletions.len(), 0);
    let m = &change_set.modifications[0];
    assert_eq!(m.path, "/schemas/S");
    assert!(matches!(&m.old_value, Some(ChangeValue::Schema(Schema::Object(_)))));
    assert!(matches!(&m.new_value, Some(ChangeValue::Schema(Schema::Enum(_)))));
}
