//! Raw models of the versioned schema text that the host runtime publishes.
//!
//! These mirror the top-level fields of the schema document one to one and
//! carry no validation of their own; `schema::ingest` turns them into the
//! validated model. Decoding the schema text into these structs is host-glue
//! and lives outside the library.

use vstd::prelude::*;

verus! {

/// The whole schema document: a version header plus arrays of built-in type,
/// class, enum, utility-function, native-structure and singleton descriptions.
pub struct JsonExtensionApi {
    pub header: JsonHeader,
    pub builtin_class_sizes: Vec<JsonClassSizes>,
    pub builtin_classes: Vec<JsonBuiltin>,
    pub classes: Vec<JsonClass>,
    pub global_enums: Vec<JsonEnum>,
    pub utility_functions: Vec<JsonUtilityFunction>,
    pub native_structures: Vec<JsonNativeStructure>,
    pub singletons: Vec<JsonSingleton>,
}

/// Immutable version identity of a schema document.
#[derive(Debug)]
pub struct JsonHeader {
    pub version_major: u8,
    pub version_minor: u8,
    pub version_patch: u8,
    pub version_status: String,
    pub version_build: String,
    pub version_full_name: String,
}

impl Clone for JsonHeader {
    fn clone(&self) -> (res: Self)
        ensures
            res == *self,
    {
        JsonHeader {
            version_major: self.version_major,
            version_minor: self.version_minor,
            version_patch: self.version_patch,
            version_status: self.version_status.clone(),
            version_build: self.version_build.clone(),
            version_full_name: self.version_full_name.clone(),
        }
    }
}

/// Byte sizes of the built-in value types under one build configuration.
pub struct JsonClassSizes {
    pub build_configuration: String,
    pub sizes: Vec<JsonClassSize>,
}

pub struct JsonClassSize {
    pub name: String,
    pub size: usize,
}

/// A built-in value type of the host runtime.
pub struct JsonBuiltin {
    pub name: String,
    pub indexing_return_type: Option<String>,
    pub is_keyed: bool,
    pub enums: Option<Vec<JsonBuiltinEnum>>,
    pub operators: Vec<JsonOperator>,
    pub methods: Option<Vec<JsonBuiltinMethod>>,
    pub constructors: Vec<JsonConstructor>,
    pub has_destructor: bool,
}

/// A class of the host runtime's object hierarchy, as the schema text states
/// it: the parent is still a bare name reference.
pub struct JsonClass {
    pub name: String,
    pub is_refcounted: bool,
    pub is_instantiable: bool,
    pub inherits: Option<String>,
    pub api_type: String,
    pub constants: Option<Vec<JsonClassConstant>>,
    pub enums: Option<Vec<JsonEnum>>,
    pub methods: Option<Vec<JsonClassMethod>>,
}

pub struct JsonNativeStructure {
    pub name: String,
    pub format: String,
}

pub struct JsonSingleton {
    pub name: String,
}

/// A global enum, or a class-local enum in the same shape.
pub struct JsonEnum {
    pub name: String,
    pub is_bitfield: bool,
    pub values: Vec<JsonEnumConstant>,
}

/// An enum local to a built-in value type; the schema gives these no
/// bitfield flag.
pub struct JsonBuiltinEnum {
    pub name: String,
    pub values: Vec<JsonEnumConstant>,
}

impl JsonBuiltinEnum {
    /// Normalizes a built-in-type-local enum into the one canonical enum
    /// shape, with the bitfield flag forced off.
    pub fn to_enum(&self) -> (res: JsonEnum)
        ensures
            res.name == self.name,
            res.is_bitfield == false,
            res.values@ == self.values@,
    {
        JsonEnum {
            name: self.name.clone(),
            is_bitfield: false,
            values: clone_constants(&self.values),
        }
    }
}

/// One named constant of an enum; the schema carries every constant as a
/// 64-bit signed value.
pub struct JsonEnumConstant {
    pub name: String,
    pub value: i64,
}

impl Clone for JsonEnumConstant {
    fn clone(&self) -> (res: Self)
        ensures
            res == *self,
    {
        JsonEnumConstant { name: self.name.clone(), value: self.value }
    }
}

/// Whether a constant's 64-bit value can be narrowed to a signed 32-bit
/// ordinal without changing it.
pub open spec fn fits_enum_ord(value: i64) -> bool {
    i32::MIN <= value <= i32::MAX
}

impl JsonEnumConstant {
    /// Narrows the 64-bit schema value to the 32-bit ordinal used by the
    /// generated bindings. A value outside the signed 32-bit range is a
    /// schema-integrity defect, so callers must rule it out first; the
    /// checked form is `to_enum_ord_checked`.
    pub fn to_enum_ord(&self) -> (ord: i32)
        requires
            fits_enum_ord(self.value),
        ensures
            ord as int == self.value as int,
    {
        self.value as i32
    }

    /// Narrows the 64-bit schema value to a 32-bit ordinal, rejecting any
    /// value outside the signed 32-bit range instead of wrapping it.
    pub fn to_enum_ord_checked(&self) -> (res: Option<i32>)
        ensures
            match res {
                Some(ord) => fits_enum_ord(self.value) && ord as int == self.value as int,
                None => !fits_enum_ord(self.value),
            },
    {
        if self.value >= i32::MIN as i64 && self.value <= i32::MAX as i64 {
            Some(self.value as i32)
        } else {
            None
        }
    }
}

pub type JsonClassConstant = JsonEnumConstant;

/// An operator of a built-in value type.
pub struct JsonOperator {
    pub name: String,
    pub right_type: Option<String>,
    pub return_type: String,
}

pub struct JsonMember {
    pub name: String,
    pub type_: String,
}

pub struct JsonProperty {
    pub type_: String,
    pub name: String,
    pub setter: String,
    pub getter: String,
    pub index: i32,
}

pub struct JsonSignal {
    pub name: String,
    pub arguments: Option<Vec<JsonMethodArg>>,
}

pub struct JsonConstructor {
    pub index: usize,
    pub arguments: Option<Vec<JsonMethodArg>>,
}

pub struct JsonUtilityFunction {
    pub name: String,
    pub return_type: Option<String>,
    pub category: String,
    pub is_vararg: bool,
    pub hash: i64,
    pub arguments: Option<Vec<JsonMethodArg>>,
}

pub struct JsonBuiltinMethod {
    pub name: String,
    pub return_type: Option<String>,
    pub is_vararg: bool,
    pub is_const: bool,
    pub is_static: bool,
    pub hash: Option<i64>,
    pub arguments: Option<Vec<JsonMethodArg>>,
}

/// A method of a class, with its dispatch hash and ordered argument list.
pub struct JsonClassMethod {
    pub name: String,
    pub is_const: bool,
    pub is_vararg: bool,
    pub is_static: bool,
    pub is_virtual: bool,
    pub hash: Option<i64>,
    pub return_value: Option<JsonMethodReturn>,
    pub arguments: Option<Vec<JsonMethodArg>>,
}

/// One declared argument of a method, with an optional precision/width hint
/// and an optional default value.
pub struct JsonMethodArg {
    pub name: String,
    pub type_: String,
    pub meta: Option<String>,
    pub default_value: Option<String>,
}

impl Clone for JsonMethodArg {
    fn clone(&self) -> (res: Self)
        ensures
            res == *self,
    {
        JsonMethodArg {
            name: self.name.clone(),
            type_: self.type_.clone(),
            meta: clone_opt_string(&self.meta),
            default_value: clone_opt_string(&self.default_value),
        }
    }
}

/// The return descriptor of a method: a declared type plus an optional
/// precision/width hint.
pub struct JsonMethodReturn {
    pub type_: String,
    pub meta: Option<String>,
}

impl Clone for JsonMethodReturn {
    fn clone(&self) -> (res: Self)
        ensures
            res == *self,
    {
        JsonMethodReturn { type_: self.type_.clone(), meta: clone_opt_string(&self.meta) }
    }
}

impl JsonMethodReturn {
    /// A return descriptor that names a type and carries no width hint.
    pub fn from_type_no_meta(type_: &str) -> (res: Self)
        ensures
            res.type_@ == type_@,
            res.meta is None,
    {
        JsonMethodReturn { type_: type_.to_owned(), meta: None }
    }
}

fn clone_opt_string(s: &Option<String>) -> (res: Option<String>)
    ensures
        res == *s,
{
    match s {
        Some(v) => Some(v.clone()),
        None => None,
    }
}

/// Copies a constant list element for element.
pub(crate) fn clone_constants(values: &Vec<JsonEnumConstant>) -> (res: Vec<JsonEnumConstant>)
    ensures
        res@ == values@,
{
    let mut res: Vec<JsonEnumConstant> = Vec::new();
    let mut i: usize = 0;
    while i < values.len()
        invariant
            i <= values.len(),
            res@ == values@.take(i as int),
        decreases values.len() - i,
    {
        res.push(values[i].clone());
        i = i + 1;
        proof {
            assert(values@.take(i as int) == values@.take(i as int - 1).push(values@[i - 1]));
        }
    }
    proof {
        assert(values@.take(values@.len() as int) == values@);
    }
    res
}

} // verus!
