//! The document model: a typed snapshot of one service's interface
//! description, with variant schema kinds.
//!
//! Each type has a mathematical view (`*View`) used by the contracts, reached
//! through [`DeepView`].  Mappings are association lists ([`crate::keymap`])
//! whose well-formedness asks for unique keys at every level.

use vstd::prelude::*;
use crate::keymap::unique_keys;
use crate::text::{clone_opt_str, clone_opt_str_vec, clone_str_vec};

verus! {

/// A snapshot of one service's description at a point in time.
pub struct DiscoveryDocument {
    pub description: Option<String>,
    pub title: Option<String>,
    pub discovery_version: Option<String>,
    pub revision: Option<String>,
    pub owner_domain: Option<String>,
    pub base_url: Option<String>,
    pub documentation_link: Option<String>,
    pub schemas: Option<Vec<(String, Schema)>>,
    pub resources: Option<Vec<(String, Resource)>>,
}

/// A named data shape: either an object or an enumeration.
pub enum Schema {
    Object(ObjectSchema),
    Enum(EnumSchema),
}

/// An object schema: a mapping from property name to property.
pub struct ObjectSchema {
    pub properties: Option<Vec<(String, Property)>>,
    pub schema_type: Option<String>,
    pub id: Option<String>,
}

/// An enumeration schema: an ordered sequence of values, with an optional
/// parallel sequence of descriptions (position `i` describes value `i`).
pub struct EnumSchema {
    pub properties: Option<Vec<(String, Property)>>,
    pub schema_type: Option<String>,
    pub id: Option<String>,
    pub enumeration: Vec<String>,
    pub enum_descriptions: Option<Vec<String>>,
}

/// One field of an object schema.
pub struct Property {
    pub property_type: Option<String>,
    pub reference: Option<String>,
    pub format: Option<String>,
    pub description: Option<String>,
}

/// A group of methods; resources do not nest further.
pub struct Resource {
    pub methods: Option<Vec<(String, Method)>>,
}

/// One callable method of a resource.
pub struct Method {
    pub id: String,
    pub path: String,
    pub http_method: String,
    pub description: Option<String>,
    pub parameters: Option<Vec<(String, Parameter)>>,
    pub request: Option<Request>,
    pub response: Option<Response>,
    pub scopes: Option<Vec<String>>,
}

/// A reference to the schema of a method's request body.
pub struct Request {
    pub reference: Option<String>,
}

/// A reference to the schema of a method's response body.
pub struct Response {
    pub reference: Option<String>,
}

/// One parameter of a method.
pub struct Parameter {
    pub param_type: Option<String>,
    pub description: Option<String>,
    pub required: Option<bool>,
    pub location: Option<String>,
}

// ---------------------------------------------------------------------------
// Mathematical views
// ---------------------------------------------------------------------------

#[verifier::ext_equal]
pub struct DocumentView {
    pub description: Option<Seq<char>>,
    pub title: Option<Seq<char>>,
    pub discovery_version: Option<Seq<char>>,
    pub revision: Option<Seq<char>>,
    pub owner_domain: Option<Seq<char>>,
    pub base_url: Option<Seq<char>>,
    pub documentation_link: Option<Seq<char>>,
    pub schemas: Option<Seq<(Seq<char>, SchemaView)>>,
    pub resources: Option<Seq<(Seq<char>, ResourceView)>>,
}

#[verifier::ext_equal]
pub enum SchemaView {
    Object(ObjectSchemaView),
    Enum(EnumSchemaView),
}

#[verifier::ext_equal]
pub struct ObjectSchemaView {
    pub properties: Option<Seq<(Seq<char>, PropertyView)>>,
    pub schema_type: Option<Seq<char>>,
    pub id: Option<Seq<char>>,
}

#[verifier::ext_equal]
pub struct EnumSchemaView {
    pub properties: Option<Seq<(Seq<char>, PropertyView)>>,
    pub schema_type: Option<Seq<char>>,
    pub id: Option<Seq<char>>,
    pub enumeration: Seq<Seq<char>>,
    pub enum_descriptions: Option<Seq<Seq<char>>>,
}

#[verifier::ext_equal]
pub struct PropertyView {
    pub property_type: Option<Seq<char>>,
    pub reference: Option<Seq<char>>,
    pub format: Option<Seq<char>>,
    pub description: Option<Seq<char>>,
}

#[verifier::ext_equal]
pub struct ResourceView {
    pub methods: Option<Seq<(Seq<char>, MethodView)>>,
}

#[verifier::ext_equal]
pub struct MethodView {
    pub id: Seq<char>,
    pub path: Seq<char>,
    pub http_method: Seq<char>,
    pub description: Option<Seq<char>>,
    pub parameters: Option<Seq<(Seq<char>, ParameterView)>>,
    pub request: Option<RequestView>,
    pub response: Option<ResponseView>,
    pub scopes: Option<Seq<Seq<char>>>,
}

#[verifier::ext_equal]
pub struct RequestView {
    pub reference: Option<Seq<char>>,
}

#[verifier::ext_equal]
pub struct ResponseView {
    pub reference: Option<Seq<char>>,
}

#[verifier::ext_equal]
pub struct ParameterView {
    pub param_type: Option<Seq<char>>,
    pub description: Option<Seq<char>>,
    pub required: Option<bool>,
    pub location: Option<Seq<char>>,
}

impl DeepView for DiscoveryDocument {
    type V = DocumentView;

    open spec fn deep_view(&self) -> DocumentView {
        DocumentView {
            description: self.description.deep_view(),
            title: self.title.deep_view(),
            discovery_version: self.discovery_version.deep_view(),
            revision: self.revision.deep_view(),
            owner_domain: self.owner_domain.deep_view(),
            base_url: self.base_url.deep_view(),
            documentation_link: self.documentation_link.deep_view(),
            schemas: self.schemas.deep_view(),
            resources: self.resources.deep_view(),
        }
    }
}

impl DeepView for Schema {
    type V = SchemaView;

    open spec fn deep_view(&self) -> SchemaView {
        match self {
            Schema::Object(o) => SchemaView::Object(o.deep_view()),
            Schema::Enum(e) => SchemaView::Enum(e.deep_view()),
        }
    }
}

impl DeepView for ObjectSchema {
    type V = ObjectSchemaView;

    open spec fn deep_view(&self) -> ObjectSchemaView {
        ObjectSchemaView {
            properties: self.properties.deep_view(),
            schema_type: self.schema_type.deep_view(),
            id: self.id.deep_view(),
        }
    }
}

impl DeepView for EnumSchema {
    type V = EnumSchemaView;

    open spec fn deep_view(&self) -> EnumSchemaView {
        EnumSchemaView {
            properties: self.properties.deep_view(),
            schema_type: self.schema_type.deep_view(),
            id: self.id.deep_view(),
            enumeration: self.enumeration.deep_view(),
            enum_descriptions: self.enum_descriptions.deep_view(),
        }
    }
}

impl DeepView for Property {
    type V = PropertyView;

    open spec fn deep_view(&self) -> PropertyView {
        PropertyView {
            property_type: self.property_type.deep_view(),
            reference: self.reference.deep_view(),
            format: self.format.deep_view(),
            description: self.description.deep_view(),
        }
    }
}

impl DeepView for Resource {
    type V = ResourceView;

    open spec fn deep_view(&self) -> ResourceView {
        ResourceView { methods: self.methods.deep_view() }
    }
}

impl DeepView for Method {
    type V = MethodView;

    open spec fn deep_view(&self) -> MethodView {
        MethodView {
            id: self.id.deep_view(),
            path: self.path.deep_view(),
            http_method: self.http_method.deep_view(),
            description: self.description.deep_view(),
            parameters: self.parameters.deep_view(),
            request: self.request.deep_view(),
            response: self.response.deep_view(),
            scopes: self.scopes.deep_view(),
        }
    }
}

impl DeepView for Request {
    type V = RequestView;

    open spec fn deep_view(&self) -> RequestView {
        RequestView { reference: self.reference.deep_view() }
    }
}

impl DeepView for Response {
    type V = ResponseView;

    open spec fn deep_view(&self) -> ResponseView {
        ResponseView { reference: self.reference.deep_view() }
    }
}

impl DeepView for Parameter {
    type V = ParameterView;

    open spec fn deep_view(&self) -> ParameterView {
        ParameterView {
            param_type: self.param_type.deep_view(),
            description: self.description.deep_view(),
            required: self.required.deep_view(),
            location: self.location.deep_view(),
        }
    }
}

// ---------------------------------------------------------------------------
// Well-formedness: unique keys at every mapping level
// ---------------------------------------------------------------------------

impl MethodView {
    pub open spec fn wf(self) -> bool {
        match self.parameters {
            Some(m) => unique_keys(m),
            None => true,
        }
    }
}

impl ResourceView {
    pub open spec fn wf(self) -> bool {
        match self.methods {
            Some(m) => unique_keys(m) && forall|i: int|
                0 <= i < m.len() ==> (#[trigger] m[i]).1.wf(),
            None => true,
        }
    }
}

impl SchemaView {
    pub open spec fn properties(self) -> Option<Seq<(Seq<char>, PropertyView)>> {
        match self {
            SchemaView::Object(o) => o.properties,
            SchemaView::Enum(e) => e.properties,
        }
    }

    pub open spec fn wf(self) -> bool {
        match self.properties() {
            Some(m) => unique_keys(m),
            None => true,
        }
    }
}

impl DocumentView {
    pub open spec fn wf(self) -> bool {
        &&& match self.schemas {
            Some(m) => unique_keys(m) && forall|i: int|
                0 <= i < m.len() ==> (#[trigger] m[i]).1.wf(),
            None => true,
        }
        &&& match self.resources {
            Some(m) => unique_keys(m) && forall|i: int|
                0 <= i < m.len() ==> (#[trigger] m[i]).1.wf(),
            None => true,
        }
    }
}

// ---------------------------------------------------------------------------
// Copying
// ---------------------------------------------------------------------------

impl Clone for Property {
    fn clone(&self) -> (r: Self)
        ensures
            r.deep_view() == self.deep_view(),
    {
        Property {
            property_type: clone_opt_str(&self.property_type),
            reference: clone_opt_str(&self.reference),
            format: clone_opt_str(&self.format),
            description: clone_opt_str(&self.description),
        }
    }
}

impl Clone for Parameter {
    fn clone(&self) -> (r: Self)
        ensures
            r.deep_view() == self.deep_view(),
    {
        Parameter {
            param_type: clone_opt_str(&self.param_type),
            description: clone_opt_str(&self.description),
            required: match self.required {
                Some(b) => Some(b),
                None => None,
            },
            location: clone_opt_str(&self.location),
        }
    }
}

impl Clone for Request {
    fn clone(&self) -> (r: Self)
        ensures
            r.deep_view() == self.deep_view(),
    {
        Request { reference: clone_opt_str(&self.reference) }
    }
}

impl Clone for Response {
    fn clone(&self) -> (r: Self)
        ensures
            r.deep_view() == self.deep_view(),
    {
        Response { reference: clone_opt_str(&self.reference) }
    }
}

/// A fresh copy of an entry list, given a copier for the values.
fn clone_opt_request(a: &Option<Request>) -> (r: Option<Request>)
    ensures
        r.deep_view() == a.deep_view(),
{
    match a {
        Some(x) => Some(x.clone()),
        None => None,
    }
}

fn clone_opt_response(a: &Option<Response>) -> (r: Option<Response>)
    ensures
        r.deep_view() == a.deep_view(),
{
    match a {
        Some(x) => Some(x.clone()),
        None => None,
    }
}

impl Clone for Method {
    fn clone(&self) -> (r: Self)
        ensures
            r.deep_view() == self.deep_view(),
    {
        Method {
            id: self.id.clone(),
            path: self.path.clone(),
            http_method: self.http_method.clone(),
            description: clone_opt_str(&self.description),
            parameters: clone_parameter_map_opt(&self.parameters),
            request: clone_opt_request(&self.request),
            response: clone_opt_response(&self.response),
            scopes: clone_opt_str_vec(&self.scopes),
        }
    }
}

impl Clone for Resource {
    fn clone(&self) -> (r: Self)
        ensures
            r.deep_view() == self.deep_view(),
    {
        Resource { methods: clone_method_map_opt(&self.methods) }
    }
}

impl Clone for ObjectSchema {
    fn clone(&self) -> (r: Self)
        ensures
            r.deep_view() == self.deep_view(),
    {
        ObjectSchema {
            properties: clone_property_map_opt(&self.properties),
            schema_type: clone_opt_str(&self.schema_type),
            id: clone_opt_str(&self.id),
        }
    }
}

impl Clone for EnumSchema {
    fn clone(&self) -> (r: Self)
        ensures
            r.deep_view() == self.deep_view(),
    {
        EnumSchema {
            properties: clone_property_map_opt(&self.properties),
            schema_type: clone_opt_str(&self.schema_type),
            id: clone_opt_str(&self.id),
            enumeration: clone_str_vec(&self.enumeration),
            enum_descriptions: clone_opt_str_vec(&self.enum_descriptions),
        }
    }
}

impl Clone for Schema {
    fn clone(&self) -> (r: Self)
        ensures
            r.deep_view() == self.deep_view(),
    {
        match self {
            Schema::Object(o) => Schema::Object(o.clone()),
            Schema::Enum(e) => Schema::Enum(e.clone()),
        }
    }
}

impl Clone for DiscoveryDocument {
    fn clone(&self) -> (r: Self)
        ensures
            r.deep_view() == self.deep_view(),
    {
        DiscoveryDocument {
            description: clone_opt_str(&self.description),
            title: clone_opt_str(&self.title),
            discovery_version: clone_opt_str(&self.discovery_version),
            revision: clone_opt_str(&self.revision),
            owner_domain: clone_opt_str(&self.owner_domain),
            base_url: clone_opt_str(&self.base_url),
            documentation_link: clone_opt_str(&self.documentation_link),
            schemas: clone_schema_map_opt(&self.schemas),
            resources: clone_resource_map_opt(&self.resources),
        }
    }
}

/// A fresh copy of a parameter map.
pub fn clone_parameter_map(a: &Vec<(String, Parameter)>) -> (r: Vec<(String, Parameter)>)
    ensures
        r.deep_view() == a.deep_view(),
{
    let mut r: Vec<(String, Parameter)> = Vec::new();
    let mut i: usize = 0;
    while i < a.len()
        invariant
            0 <= i <= a.len(),
            r.deep_view().len() == i,
            forall|j: int| 0 <= j < i ==> r.deep_view()[j] == a.deep_view()[j],
        decreases a.len() - i,
    {
        r.push((a[i].0.clone(), a[i].1.clone()));
        i += 1;
    }
    proof {
        assert(r.deep_view() =~= a.deep_view());
    }
    r
}

pub fn clone_parameter_map_opt(a: &Option<Vec<(String, Parameter)>>) -> (r: Option<
    Vec<(String, Parameter)>,
>)
    ensures
        r.deep_view() == a.deep_view(),
{
    match a {
        Some(m) => Some(clone_parameter_map(m)),
        None => None,
    }
}

/// A fresh copy of a method map.
pub fn clone_method_map(a: &Vec<(String, Method)>) -> (r: Vec<(String, Method)>)
    ensures
        r.deep_view() == a.deep_view(),
{
    let mut r: Vec<(String, Method)> = Vec::new();
    let mut i: usize = 0;
    while i < a.len()
        invariant
            0 <= i <= a.len(),
            r.deep_view().len() == i,
            forall|j: int| 0 <= j < i ==> r.deep_view()[j] == a.deep_view()[j],
        decreases a.len() - i,
    {
        r.push((a[i].0.clone(), a[i].1.clone()));
        i += 1;
    }
    proof {
        assert(r.deep_view() =~= a.deep_view());
    }
    r
}

pub fn clone_method_map_opt(a: &Option<Vec<(String, Method)>>) -> (r: Option<
    Vec<(String, Method)>,
>)
    ensures
        r.deep_view() == a.deep_view(),
{
    match a {
        Some(m) => Some(clone_method_map(m)),
        None => None,
    }
}

/// A fresh copy of a property map.
pub fn clone_property_map(a: &Vec<(String, Property)>) -> (r: Vec<(String, Property)>)
    ensures
        r.deep_view() == a.deep_view(),
{
    let mut r: Vec<(String, Property)> = Vec::new();
    let mut i: usize = 0;
    while i < a.len()
        invariant
            0 <= i <= a.len(),
            r.deep_view().len() == i,
            forall|j: int| 0 <= j < i ==> r.deep_view()[j] == a.deep_view()[j],
        decreases a.len() - i,
    {
        r.push((a[i].0.clone(), a[i].1.clone()));
        i += 1;
    }
    proof {
        assert(r.deep_view() =~= a.deep_view());
    }
    r
}

pub fn clone_property_map_opt(a: &Option<Vec<(String, Property)>>) -> (r: Option<
    Vec<(String, Property)>,
>)
    ensures
        r.deep_view() == a.deep_view(),
{
    match a {
        Some(m) => Some(clone_property_map(m)),
        None => None,
    }
}

/// A fresh copy of a schema map.
pub fn clone_schema_map(a: &Vec<(String, Schema)>) -> (r: Vec<(String, Schema)>)
    ensures
        r.deep_view() == a.deep_view(),
{
    let mut r: Vec<(String, Schema)> = Vec::new();
    let mut i: usize = 0;
    while i < a.len()
        invariant
            0 <= i <= a.len(),
            r.deep_view().len() == i,
            forall|j: int| 0 <= j < i ==> r.deep_view()[j] == a.deep_view()[j],
        decreases a.len() - i,
    {
        r.push((a[i].0.clone(), a[i].1.clone()));
        i += 1;
    }
    proof {
        assert(r.deep_view() =~= a.deep_view());
    }
    r
}

pub fn clone_schema_map_opt(a: &Option<Vec<(String, Schema)>>) -> (r: Option<
    Vec<(String, Schema)>,
>)
    ensures
        r.deep_view() == a.deep_view(),
{
    match a {
        Some(m) => Some(clone_schema_map(m)),
        None => None,
    }
}

/// A fresh copy of a resource map.
pub fn clone_resource_map(a: &Vec<(String, Resource)>) -> (r: Vec<(String, Resource)>)
    ensures
        r.deep_view() == a.deep_view(),
{
    let mut r: Vec<(String, Resource)> = Vec::new();
    let mut i: usize = 0;
    while i < a.len()
        invariant
            0 <= i <= a.len(),
            r.deep_view().len() == i,
            forall|j: int| 0 <= j < i ==> r.deep_view()[j] == a.deep_view()[j],
        decreases a.len() - i,
    {
        r.push((a[i].0.clone(), a[i].1.clone()));
        i += 1;
    }
    proof {
        assert(r.deep_view() =~= a.deep_view());
    }
    r
}

pub fn clone_resource_map_opt(a: &Option<Vec<(String, Resource)>>) -> (r: Option<
    Vec<(String, Resource)>,
>)
    ensures
        r.deep_view() == a.deep_view(),
{
    match a {
        Some(m) => Some(clone_resource_map(m)),
        None => None,
    }
}

} // verus!
