//! `Identifiable` trait for any Rust data structure that can have an id.

use vstd::prelude::*;

verus! {

/// Type id of the bool true value.
pub const BOOL_TRUE_ID: u32 = 0x997275b5;

/// Type id of the bool false value.
pub const BOOL_FALSE_ID: u32 = 0xbc799737;

/// Type id of the int type.
pub const INT_ID: u32 = 0xa8509bda;

/// Type id of the long type.
pub const LONG_ID: u32 = 0x22076cba;

/// Type id of the double type.
pub const DOUBLE_ID: u32 = 0x2210c154;

/// Type id of the string type.
pub const STRING_ID: u32 = 0xb5286e24;

/// Type id of the vector type.
pub const VECTOR_ID: u32 = 0x1cb5c415;

/// The characters of each name of a list of names.
pub open spec fn names_view(names: Seq<&'static str>) -> Seq<Seq<char>> {
    names.map_values(|name: &'static str| name@)
}

/// The characters of each name of a list of names that may be missing.
pub open spec fn opt_names_view(names: Option<&'static [&'static str]>) -> Option<Seq<Seq<char>>> {
    match names {
        Some(names) => Some(names_view(names@)),
        None => None,
    }
}

/// The characters of a name that may be missing.
pub open spec fn opt_name_view(name: Option<&'static str>) -> Option<Seq<char>> {
    match name {
        Some(name) => Some(name@),
        None => None,
    }
}

/// Whether `name` and `id` stand at the same place in `names` and `ids`.
pub open spec fn names_id_at_same_place(
    names: Seq<Seq<char>>,
    ids: Seq<u32>,
    name: Seq<char>,
    id: u32,
) -> bool {
    exists|i: int|
        0 <= i < names.len() && i < ids.len() && #[trigger] names[i] == name && ids[i] == id
}

/// A trait for a Rust data structure that can have an id.
///
/// A struct has one id. An enum has one id for each variant, no two of
/// them equal, and as many variant names as ids, in the same order.
///
/// The functions that say what the ids and the names are have a body that
/// leaves them open, for the types that only compute them.
pub trait Identifiable {
    /// All ids that a value of this type can have.
    open spec fn spec_all_type_ids() -> Seq<u32> {
        arbitrary()
    }

    /// The names of the variants of an enum, in the order of its ids;
    /// nothing for a struct.
    open spec fn spec_all_enum_variant_names() -> Option<Seq<Seq<char>>> {
        arbitrary()
    }

    /// The id of this value.
    open spec fn spec_type_id(&self) -> u32 {
        arbitrary()
    }

    /// The name of the variant that this value of an enum is; nothing for
    /// a struct.
    open spec fn spec_enum_variant_id(&self) -> Option<Seq<char>> {
        arbitrary()
    }

    /// Get all possible ids of an identifiable type.
    ///
    /// This is most useful for enums where each variant has its own id.
    fn all_type_ids() -> (ids: &'static [u32]) where Self: Sized
        ensures
            ids@ == Self::spec_all_type_ids(),
            ids@.no_duplicates(),
            ids@.len() > 0,
    ;

    /// Get all enum variant names of an identifiable type.
    ///
    /// For structs this is `None` and for enums it is `Some` with the
    /// variant names in the same order as the variants themselves.
    fn all_enum_variant_names() -> (names: Option<&'static [&'static str]>) where Self: Sized
        ensures
            opt_names_view(names) == Self::spec_all_enum_variant_names(),
            names is Some ==> names.unwrap()@.len() == Self::spec_all_type_ids().len(),
            names is None ==> Self::spec_all_type_ids().len() == 1,
    ;

    /// Get id of a value of an identifiable type.
    fn type_id(&self) -> (id: u32)
        ensures
            id == self.spec_type_id(),
            Self::spec_all_type_ids().contains(id),
    ;

    /// Get the enum variant hint for a value of an identifiable type: the
    /// name that a deserializer has to be given to read the value back.
    fn enum_variant_id(&self) -> (name: Option<&'static str>)
        ensures
            opt_name_view(name) == self.spec_enum_variant_id(),
            match Self::spec_all_enum_variant_names() {
                Some(names) => name is Some && names_id_at_same_place(
                    names,
                    Self::spec_all_type_ids(),
                    name.unwrap()@,
                    self.spec_type_id(),
                ),
                None => name is None,
            },
    ;
}

impl<'a, T: Identifiable> Identifiable for &'a T {
    open spec fn spec_all_type_ids() -> Seq<u32> {
        T::spec_all_type_ids()
    }

    open spec fn spec_all_enum_variant_names() -> Option<Seq<Seq<char>>> {
        T::spec_all_enum_variant_names()
    }

    open spec fn spec_type_id(&self) -> u32 {
        (**self).spec_type_id()
    }

    open spec fn spec_enum_variant_id(&self) -> Option<Seq<char>> {
        (**self).spec_enum_variant_id()
    }

    fn all_type_ids() -> (ids: &'static [u32]) {
        T::all_type_ids()
    }

    fn all_enum_variant_names() -> (names: Option<&'static [&'static str]>) {
        T::all_enum_variant_names()
    }

    fn type_id(&self) -> (id: u32) {
        (**self).type_id()
    }

    fn enum_variant_id(&self) -> (name: Option<&'static str>) {
        (**self).enum_variant_id()
    }
}

impl<T: Identifiable> Identifiable for Box<T> {
    open spec fn spec_all_type_ids() -> Seq<u32> {
        T::spec_all_type_ids()
    }

    open spec fn spec_all_enum_variant_names() -> Option<Seq<Seq<char>>> {
        T::spec_all_enum_variant_names()
    }

    open spec fn spec_type_id(&self) -> u32 {
        (**self).spec_type_id()
    }

    open spec fn spec_enum_variant_id(&self) -> Option<Seq<char>> {
        (**self).spec_enum_variant_id()
    }

    fn all_type_ids() -> (ids: &'static [u32]) {
        T::all_type_ids()
    }

    fn all_enum_variant_names() -> (names: Option<&'static [&'static str]>) {
        T::all_enum_variant_names()
    }

    fn type_id(&self) -> (id: u32) {
        (**self).type_id()
    }

    fn enum_variant_id(&self) -> (name: Option<&'static str>) {
        (**self).enum_variant_id()
    }
}

impl Identifiable for bool {
    open spec fn spec_all_type_ids() -> Seq<u32> {
        seq![BOOL_FALSE_ID, BOOL_TRUE_ID]
    }

    open spec fn spec_all_enum_variant_names() -> Option<Seq<Seq<char>>> {
        Some(seq!["false"@, "true"@])
    }

    open spec fn spec_type_id(&self) -> u32 {
        if *self {
            BOOL_TRUE_ID
        } else {
            BOOL_FALSE_ID
        }
    }

    open spec fn spec_enum_variant_id(&self) -> Option<Seq<char>> {
        if *self {
            Some("true"@)
        } else {
            Some("false"@)
        }
    }

    fn all_type_ids() -> (ids: &'static [u32]) {
        let ids: &'static [u32] = &[BOOL_FALSE_ID, BOOL_TRUE_ID];
        assert(ids@ =~= seq![BOOL_FALSE_ID, BOOL_TRUE_ID]);
        ids
    }

    fn all_enum_variant_names() -> (names: Option<&'static [&'static str]>) {
        let names: &'static [&'static str] = &["false", "true"];
        assert(names_view(names@) =~= seq!["false"@, "true"@]);
        Some(names)
    }

    fn type_id(&self) -> (id: u32) {
        assert(Self::spec_all_type_ids()[0] == BOOL_FALSE_ID);
        assert(Self::spec_all_type_ids()[1] == BOOL_TRUE_ID);
        if *self {
            BOOL_TRUE_ID
        } else {
            BOOL_FALSE_ID
        }
    }

    fn enum_variant_id(&self) -> (name: Option<&'static str>) {
        proof {
            let names = Self::spec_all_enum_variant_names().unwrap();
            assert(names[0] == "false"@);
            assert(names[1] == "true"@);
            assert(Self::spec_all_type_ids()[0] == BOOL_FALSE_ID);
            assert(Self::spec_all_type_ids()[1] == BOOL_TRUE_ID);
        }
        if *self {
            Some("true")
        } else {
            Some("false")
        }
    }
}

impl Identifiable for i8 {
    open spec fn spec_all_type_ids() -> Seq<u32> {
        seq![INT_ID]
    }

    open spec fn spec_all_enum_variant_names() -> Option<Seq<Seq<char>>> {
        None
    }

    open spec fn spec_type_id(&self) -> u32 {
        INT_ID
    }

    open spec fn spec_enum_variant_id(&self) -> Option<Seq<char>> {
        None
    }

    fn all_type_ids() -> (ids: &'static [u32]) {
        let ids: &'static [u32] = &[INT_ID];
        assert(ids@ =~= seq![INT_ID]);
        ids
    }

    fn all_enum_variant_names() -> (names: Option<&'static [&'static str]>) {
        None
    }

    fn type_id(&self) -> (id: u32) {
        assert(Self::spec_all_type_ids()[0] == INT_ID);
        INT_ID
    }

    fn enum_variant_id(&self) -> (name: Option<&'static str>) {
        None
    }
}

impl Identifiable for i16 {
    open spec fn spec_all_type_ids() -> Seq<u32> {
        seq![INT_ID]
    }

    open spec fn spec_all_enum_variant_names() -> Option<Seq<Seq<char>>> {
        None
    }

    open spec fn spec_type_id(&self) -> u32 {
        INT_ID
    }

    open spec fn spec_enum_variant_id(&self) -> Option<Seq<char>> {
        None
    }

    fn all_type_ids() -> (ids: &'static [u32]) {
        let ids: &'static [u32] = &[INT_ID];
        assert(ids@ =~= seq![INT_ID]);
        ids
    }

    fn all_enum_variant_names() -> (names: Option<&'static [&'static str]>) {
        None
    }

    fn type_id(&self) -> (id: u32) {
        assert(Self::spec_all_type_ids()[0] == INT_ID);
        INT_ID
    }

    fn enum_variant_id(&self) -> (name: Option<&'static str>) {
        None
    }
}

impl Identifiable for i32 {
    open spec fn spec_all_type_ids() -> Seq<u32> {
        seq![INT_ID]
    }

    open spec fn spec_all_enum_variant_names() -> Option<Seq<Seq<char>>> {
        None
    }

    open spec fn spec_type_id(&self) -> u32 {
        INT_ID
    }

    open spec fn spec_enum_variant_id(&self) -> Option<Seq<char>> {
        None
    }

    fn all_type_ids() -> (ids: &'static [u32]) {
        let ids: &'static [u32] = &[INT_ID];
        assert(ids@ =~= seq![INT_ID]);
        ids
    }

    fn all_enum_variant_names() -> (names: Option<&'static [&'static str]>) {
        None
    }

    fn type_id(&self) -> (id: u32) {
        assert(Self::spec_all_type_ids()[0] == INT_ID);
        INT_ID
    }

    fn enum_variant_id(&self) -> (name: Option<&'static str>) {
        None
    }
}

impl Identifiable for i64 {
    open spec fn spec_all_type_ids() -> Seq<u32> {
        seq![LONG_ID]
    }

    open spec fn spec_all_enum_variant_names() -> Option<Seq<Seq<char>>> {
        None
    }

    open spec fn spec_type_id(&self) -> u32 {
        LONG_ID
    }

    open spec fn spec_enum_variant_id(&self) -> Option<Seq<char>> {
        None
    }

    fn all_type_ids() -> (ids: &'static [u32]) {
        let ids: &'static [u32] = &[LONG_ID];
        assert(ids@ =~= seq![LONG_ID]);
        ids
    }

    fn all_enum_variant_names() -> (names: Option<&'static [&'static str]>) {
        None
    }

    fn type_id(&self) -> (id: u32) {
        assert(Self::spec_all_type_ids()[0] == LONG_ID);
        LONG_ID
    }

    fn enum_variant_id(&self) -> (name: Option<&'static str>) {
        None
    }
}

impl Identifiable for u8 {
    open spec fn spec_all_type_ids() -> Seq<u32> {
        seq![INT_ID]
    }

    open spec fn spec_all_enum_variant_names() -> Option<Seq<Seq<char>>> {
        None
    }

    open spec fn spec_type_id(&self) -> u32 {
        INT_ID
    }

    open spec fn spec_enum_variant_id(&self) -> Option<Seq<char>> {
        None
    }

    fn all_type_ids() -> (ids: &'static [u32]) {
        let ids: &'static [u32] = &[INT_ID];
        assert(ids@ =~= seq![INT_ID]);
        ids
    }

    fn all_enum_variant_names() -> (names: Option<&'static [&'static str]>) {
        None
    }

    fn type_id(&self) -> (id: u32) {
        assert(Self::spec_all_type_ids()[0] == INT_ID);
        INT_ID
    }

    fn enum_variant_id(&self) -> (name: Option<&'static str>) {
        None
    }
}

impl Identifiable for u16 {
    open spec fn spec_all_type_ids() -> Seq<u32> {
        seq![INT_ID]
    }

    open spec fn spec_all_enum_variant_names() -> Option<Seq<Seq<char>>> {
        None
    }

    open spec fn spec_type_id(&self) -> u32 {
        INT_ID
    }

    open spec fn spec_enum_variant_id(&self) -> Option<Seq<char>> {
        None
    }

    fn all_type_ids() -> (ids: &'static [u32]) {
        let ids: &'static [u32] = &[INT_ID];
        assert(ids@ =~= seq![INT_ID]);
        ids
    }

    fn all_enum_variant_names() -> (names: Option<&'static [&'static str]>) {
        None
    }

    fn type_id(&self) -> (id: u32) {
        assert(Self::spec_all_type_ids()[0] == INT_ID);
        INT_ID
    }

    fn enum_variant_id(&self) -> (name: Option<&'static str>) {
        None
    }
}

impl Identifiable for u32 {
    open spec fn spec_all_type_ids() -> Seq<u32> {
        seq![INT_ID]
    }

    open spec fn spec_all_enum_variant_names() -> Option<Seq<Seq<char>>> {
        None
    }

    open spec fn spec_type_id(&self) -> u32 {
        INT_ID
    }

    open spec fn spec_enum_variant_id(&self) -> Option<Seq<char>> {
        None
    }

    fn all_type_ids() -> (ids: &'static [u32]) {
        let ids: &'static [u32] = &[INT_ID];
        assert(ids@ =~= seq![INT_ID]);
        ids
    }

    fn all_enum_variant_names() -> (names: Option<&'static [&'static str]>) {
        None
    }

    fn type_id(&self) -> (id: u32) {
        assert(Self::spec_all_type_ids()[0] == INT_ID);
        INT_ID
    }

    fn enum_variant_id(&self) -> (name: Option<&'static str>) {
        None
    }
}

impl Identifiable for u64 {
    open spec fn spec_all_type_ids() -> Seq<u32> {
        seq![LONG_ID]
    }

    open spec fn spec_all_enum_variant_names() -> Option<Seq<Seq<char>>> {
        None
    }

    open spec fn spec_type_id(&self) -> u32 {
        LONG_ID
    }

    open spec fn spec_enum_variant_id(&self) -> Option<Seq<char>> {
        None
    }

    fn all_type_ids() -> (ids: &'static [u32]) {
        let ids: &'static [u32] = &[LONG_ID];
        assert(ids@ =~= seq![LONG_ID]);
        ids
    }

    fn all_enum_variant_names() -> (names: Option<&'static [&'static str]>) {
        None
    }

    fn type_id(&self) -> (id: u32) {
        assert(Self::spec_all_type_ids()[0] == LONG_ID);
        LONG_ID
    }

    fn enum_variant_id(&self) -> (name: Option<&'static str>) {
        None
    }
}

impl Identifiable for String {
    open spec fn spec_all_type_ids() -> Seq<u32> {
        seq![STRING_ID]
    }

    open spec fn spec_all_enum_variant_names() -> Option<Seq<Seq<char>>> {
        None
    }

    open spec fn spec_type_id(&self) -> u32 {
        STRING_ID
    }

    open spec fn spec_enum_variant_id(&self) -> Option<Seq<char>> {
        None
    }

    fn all_type_ids() -> (ids: &'static [u32]) {
        let ids: &'static [u32] = &[STRING_ID];
        assert(ids@ =~= seq![STRING_ID]);
        ids
    }

    fn all_enum_variant_names() -> (names: Option<&'static [&'static str]>) {
        None
    }

    fn type_id(&self) -> (id: u32) {
        assert(Self::spec_all_type_ids()[0] == STRING_ID);
        STRING_ID
    }

    fn enum_variant_id(&self) -> (name: Option<&'static str>) {
        None
    }
}

impl<'a> Identifiable for &'a str {
    open spec fn spec_all_type_ids() -> Seq<u32> {
        seq![STRING_ID]
    }

    open spec fn spec_all_enum_variant_names() -> Option<Seq<Seq<char>>> {
        None
    }

    open spec fn spec_type_id(&self) -> u32 {
        STRING_ID
    }

    open spec fn spec_enum_variant_id(&self) -> Option<Seq<char>> {
        None
    }

    fn all_type_ids() -> (ids: &'static [u32]) {
        let ids: &'static [u32] = &[STRING_ID];
        assert(ids@ =~= seq![STRING_ID]);
        ids
    }

    fn all_enum_variant_names() -> (names: Option<&'static [&'static str]>) {
        None
    }

    fn type_id(&self) -> (id: u32) {
        assert(Self::spec_all_type_ids()[0] == STRING_ID);
        STRING_ID
    }

    fn enum_variant_id(&self) -> (name: Option<&'static str>) {
        None
    }
}

impl<T> Identifiable for Vec<T> {
    open spec fn spec_all_type_ids() -> Seq<u32> {
        seq![VECTOR_ID]
    }

    open spec fn spec_all_enum_variant_names() -> Option<Seq<Seq<char>>> {
        None
    }

    open spec fn spec_type_id(&self) -> u32 {
        VECTOR_ID
    }

    open spec fn spec_enum_variant_id(&self) -> Option<Seq<char>> {
        None
    }

    fn all_type_ids() -> (ids: &'static [u32]) {
        let ids: &'static [u32] = &[VECTOR_ID];
        assert(ids@ =~= seq![VECTOR_ID]);
        ids
    }

    fn all_enum_variant_names() -> (names: Option<&'static [&'static str]>) {
        None
    }

    fn type_id(&self) -> (id: u32) {
        assert(Self::spec_all_type_ids()[0] == VECTOR_ID);
        VECTOR_ID
    }

    fn enum_variant_id(&self) -> (name: Option<&'static str>) {
        None
    }
}

} // verus!
