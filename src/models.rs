//! The OpenAPI object types of paperclip_core that the document carries. Their
//! contents are never read here: a schema, an operation or a security scheme
//! is moved into the document as a whole.

use vstd::prelude::*;

verus! {

#[verifier::external_type_specification]
#[verifier::external_body]
pub struct ExSchema(paperclip_core::v2::models::DefaultSchemaRaw);

#[verifier::external_type_specification]
#[verifier::external_body]
pub struct ExSecurityScheme(paperclip_core::v2::models::SecurityScheme);

#[verifier::external_type_specification]
#[verifier::external_body]
#[verifier::reject_recursive_types(S)]
pub struct ExParameter<S>(paperclip_core::v2::models::Parameter<S>);

#[verifier::external_type_specification]
#[verifier::external_body]
#[verifier::reject_recursive_types(S)]
pub struct ExResponse<S>(paperclip_core::v2::models::Response<S>);

#[verifier::external_type_specification]
#[verifier::external_body]
#[verifier::reject_recursive_types(P)]
#[verifier::reject_recursive_types(R)]
pub struct ExOperation<P, R>(paperclip_core::v2::models::Operation<P, R>);

} // verus!
