//! The schema of an application: its databases, their tables and the fields of the tables.
//!
//! The order of tables and of fields carries meaning and is kept as it is.
//!
//! A field goes out alias first and comes in column name first: what is
//! written here is read by the service, and what is read here was written by
//! it.

use vstd::prelude::*;
use vstd::std_specs::convert::{FromSpecImpl, TryFromSpecImpl};
use crate::ipc_conn::error::Error;
use crate::ipc_conn::parcel::{Deserialize, Parsed, Serialize, Wire};
use crate::ipc_conn::scalar::word_i32;

verus! {

/// The type of the values of a field.
#[derive(Clone, Copy, Debug, PartialEq, Eq, Structural)]
pub enum FieldType {
    /// No value.
    Null,
    /// Whole numbers.
    Number,
    /// Real numbers.
    Real,
    /// Texts.
    Text,
    /// Truth values.
    Bool,
    /// Bytes.
    Blob,
    /// Assets.
    Asset,
    /// Lists of assets.
    Assets,
}

impl Default for FieldType {
    fn default() -> (r: FieldType)
        ensures
            r == FieldType::Null,
    {
        FieldType::Null
    }
}

impl View for FieldType {
    type V = FieldType;

    open spec fn view(&self) -> FieldType {
        *self
    }
}

impl DeepView for FieldType {
    type V = FieldType;

    open spec fn deep_view(&self) -> FieldType {
        *self
    }
}

impl FieldType {
    /// The number that stands for the type; it is the tag of the values of that type.
    pub open spec fn spec_code(&self) -> u8 {
        match self {
            FieldType::Null => 0,
            FieldType::Number => 1,
            FieldType::Real => 2,
            FieldType::Text => 3,
            FieldType::Bool => 4,
            FieldType::Blob => 5,
            FieldType::Asset => 6,
            FieldType::Assets => 7,
        }
    }

    /// The type that `code` stands for, if it stands for one.
    pub open spec fn spec_from_code(code: int) -> Option<FieldType> {
        if code == 0 {
            Some(FieldType::Null)
        } else if code == 1 {
            Some(FieldType::Number)
        } else if code == 2 {
            Some(FieldType::Real)
        } else if code == 3 {
            Some(FieldType::Text)
        } else if code == 4 {
            Some(FieldType::Bool)
        } else if code == 5 {
            Some(FieldType::Blob)
        } else if code == 6 {
            Some(FieldType::Asset)
        } else if code == 7 {
            Some(FieldType::Assets)
        } else {
            None
        }
    }

    /// The number that stands for the type.
    #[verifier::when_used_as_spec(spec_code)]
    pub fn code(&self) -> (r: u8)
        ensures
            r == self.spec_code(),
    {
        match self {
            FieldType::Null => 0,
            FieldType::Number => 1,
            FieldType::Real => 2,
            FieldType::Text => 3,
            FieldType::Bool => 4,
            FieldType::Blob => 5,
            FieldType::Asset => 6,
            FieldType::Assets => 7,
        }
    }

}

/// The number of a type, as [`FieldType::code`] gives it.
impl From<&FieldType> for u8 {
    fn from(value: &FieldType) -> (r: u8) {
        value.code()
    }
}

impl FromSpecImpl<&FieldType> for u8 {
    open spec fn obeys_from_spec() -> bool {
        true
    }

    open spec fn from_spec(value: &FieldType) -> u8 {
        value.spec_code()
    }
}

/// The type that a number stands for; [`Error::InvalidFieldType`] where it stands for none.
impl TryFrom<u8> for FieldType {
    type Error = Error;

    fn try_from(value: u8) -> (r: Result<FieldType, Error>) {
        match value {
            0 => Ok(FieldType::Null),
            1 => Ok(FieldType::Number),
            2 => Ok(FieldType::Real),
            3 => Ok(FieldType::Text),
            4 => Ok(FieldType::Bool),
            5 => Ok(FieldType::Blob),
            6 => Ok(FieldType::Asset),
            7 => Ok(FieldType::Assets),
            _ => Err(Error::InvalidFieldType),
        }
    }
}

impl TryFromSpecImpl<u8> for FieldType {
    open spec fn obeys_try_from_spec() -> bool {
        true
    }

    open spec fn try_from_spec(value: u8) -> Result<FieldType, Error> {
        match FieldType::spec_from_code(value as int) {
            Some(t) => Ok(t),
            None => Err(Error::InvalidFieldType),
        }
    }
}

/// The number of a type stands for that type, and for no other.
pub proof fn lemma_field_type_codes(t: FieldType)
    ensures
        FieldType::spec_from_code(t.spec_code() as int) == Some(t),
{
}

impl Serialize for FieldType {
    open spec fn wire(v: FieldType) -> Seq<u8> {
        u32::wire(v.spec_code() as u32)
    }

    open spec fn fits(v: FieldType) -> bool {
        true
    }

    fn serialize(&self, out: &mut Vec<u8>) -> (r: Result<(), Error>) {
        let code: u32 = self.code() as u32;
        code.serialize(out)
    }
}

impl Deserialize for FieldType {
    open spec fn parse(data: Seq<u8>, pos: int) -> Parsed<FieldType> {
        match i32::parse(data, pos) {
            Err(e) => Err(e),
            Ok((code, end)) => match FieldType::spec_from_code(code as int) {
                Some(t) => Ok((t, end)),
                None => Err(Error::MalformedValue),
            },
        }
    }

    proof fn lemma_parse_bounds(data: Seq<u8>, pos: int) {
        i32::lemma_parse_bounds(data, pos);
    }

    fn deserialize(data: &[u8], pos: usize) -> (r: Result<(FieldType, usize), Error>) {
        let (code, end) = match i32::deserialize(data, pos) {
            Ok(found) => found,
            Err(e) => {
                return Err(e);
            },
        };
        match code {
            0 => Ok((FieldType::Null, end)),
            1 => Ok((FieldType::Number, end)),
            2 => Ok((FieldType::Real, end)),
            3 => Ok((FieldType::Text, end)),
            4 => Ok((FieldType::Bool, end)),
            5 => Ok((FieldType::Blob, end)),
            6 => Ok((FieldType::Asset, end)),
            7 => Ok((FieldType::Assets, end)),
            _ => Err(Error::MalformedValue),
        }
    }
}

impl Wire for FieldType {
    proof fn lemma_round_trip(pre: Seq<u8>, v: FieldType, rest: Seq<u8>) {
        let code = v.spec_code() as u32;
        u32::lemma_round_trip(pre, code, rest);
        assert(word_i32(code) == code);
    }
}

/// A field of a table.
#[derive(Clone, Debug, PartialEq)]
pub struct Field {
    /// The name of the column.
    pub col_name: String,
    /// The name of the field in the cloud.
    pub alias: String,
    /// The type of the values.
    pub typ: FieldType,
    /// Whether the field is part of the primary key.
    pub primary: bool,
    /// Whether the field may be without a value.
    pub nullable: bool,
}

/// The mathematical model of a [`Field`].
pub struct FieldView {
    pub col_name: Seq<char>,
    pub alias: Seq<char>,
    pub typ: FieldType,
    pub primary: bool,
    pub nullable: bool,
}

impl View for Field {
    type V = FieldView;

    open spec fn view(&self) -> FieldView {
        FieldView {
            col_name: self.col_name@,
            alias: self.alias@,
            typ: self.typ,
            primary: self.primary,
            nullable: self.nullable,
        }
    }
}

impl DeepView for Field {
    type V = FieldView;

    open spec fn deep_view(&self) -> FieldView {
        self@
    }
}

impl Default for Field {
    fn default() -> (r: Field)
        ensures
            r@ == (FieldView {
                col_name: Seq::empty(),
                alias: Seq::empty(),
                typ: FieldType::Null,
                primary: false,
                nullable: false,
            }),
    {
        Field {
            col_name: String::new(),
            alias: String::new(),
            typ: FieldType::Null,
            primary: false,
            nullable: false,
        }
    }
}

/// The parts of a field in the order in which they travel, either way.
pub type FieldParts = (String, (String, (FieldType, (bool, bool))));

/// The bytes of the field `v`: alias, column name, type, and the two flags.
#[verifier::opaque]
pub open spec fn field_wire(v: FieldView) -> Seq<u8> {
    FieldParts::wire((v.alias, (v.col_name, (v.typ, (v.primary, v.nullable)))))
}

/// Whether the field `v` can be written: its two names fit.
#[verifier::opaque]
pub open spec fn field_fits(v: FieldView) -> bool {
    FieldParts::fits((v.alias, (v.col_name, (v.typ, (v.primary, v.nullable)))))
}

/// The field at `pos`: column name, alias, type, and the two flags.
#[verifier::opaque]
pub open spec fn field_parse(data: Seq<u8>, pos: int) -> Parsed<FieldView> {
    match FieldParts::parse(data, pos) {
        Err(e) => Err(e),
        Ok((f, end)) => Ok(
            (
                FieldView {
                    col_name: f.0,
                    alias: f.1.0,
                    typ: f.1.1.0,
                    primary: f.1.1.1.0,
                    nullable: f.1.1.1.1,
                },
                end,
            ),
        ),
    }
}

impl Serialize for Field {
    open spec fn wire(v: FieldView) -> Seq<u8> {
        field_wire(v)
    }

    open spec fn fits(v: FieldView) -> bool {
        field_fits(v)
    }

    fn serialize(&self, out: &mut Vec<u8>) -> (r: Result<(), Error>) {
        proof {
            reveal(field_wire);
            reveal(field_fits);
        }
        (&self.alias, (&self.col_name, (&self.typ, (&self.primary, &self.nullable)))).serialize(
            out,
        )
    }
}

impl Deserialize for Field {
    open spec fn parse(data: Seq<u8>, pos: int) -> Parsed<FieldView> {
        field_parse(data, pos)
    }

    proof fn lemma_parse_bounds(data: Seq<u8>, pos: int) {
        reveal(field_parse);
        FieldParts::lemma_parse_bounds(data, pos);
    }

    fn deserialize(data: &[u8], pos: usize) -> (r: Result<(Field, usize), Error>) {
        proof {
            reveal(field_parse);
        }
        match FieldParts::deserialize(data, pos) {
            Ok(((col_name, (alias, (typ, (primary, nullable)))), end)) => Ok(
                (Field { col_name, alias, typ, primary, nullable }, end),
            ),
            Err(e) => Err(e),
        }
    }
}

/// A field that was written is read with its two names in each other's
/// place, and as it was in all the rest.
pub proof fn lemma_field_read_back(pre: Seq<u8>, v: FieldView, rest: Seq<u8>)
    requires
        field_fits(v),
    ensures
        field_parse(pre + field_wire(v) + rest, pre.len() as int) == Ok::<(FieldView, int), Error>(
            (
                FieldView { col_name: v.alias, alias: v.col_name, ..v },
                (pre.len() + field_wire(v).len()) as int,
            ),
        ),
{
    reveal(field_wire);
    reveal(field_fits);
    reveal(field_parse);
    FieldParts::lemma_round_trip(
        pre,
        (v.alias, (v.col_name, (v.typ, (v.primary, v.nullable)))),
        rest,
    );
}

/// The fields of a table, in order.
#[derive(Clone, Debug, PartialEq)]
pub struct Fields(pub Vec<Field>);

impl View for Fields {
    type V = Seq<FieldView>;

    open spec fn view(&self) -> Seq<FieldView> {
        self.0.deep_view()
    }
}

impl DeepView for Fields {
    type V = Seq<FieldView>;

    open spec fn deep_view(&self) -> Seq<FieldView> {
        self@
    }
}

impl Default for Fields {
    fn default() -> (r: Fields)
        ensures
            r@ == Seq::<FieldView>::empty(),
    {
        let r = Fields(Vec::new());
        assert(r.0.deep_view() =~= Seq::<FieldView>::empty());
        r
    }
}

impl Serialize for Fields {
    open spec fn wire(v: Seq<FieldView>) -> Seq<u8> {
        Vec::<Field>::wire(v)
    }

    open spec fn fits(v: Seq<FieldView>) -> bool {
        Vec::<Field>::fits(v)
    }

    fn serialize(&self, out: &mut Vec<u8>) -> (r: Result<(), Error>) {
        self.0.serialize(out)
    }
}

impl Deserialize for Fields {
    open spec fn parse(data: Seq<u8>, pos: int) -> Parsed<Seq<FieldView>> {
        Vec::<Field>::parse(data, pos)
    }

    proof fn lemma_parse_bounds(data: Seq<u8>, pos: int) {
        Vec::<Field>::lemma_parse_bounds(data, pos);
    }

    fn deserialize(data: &[u8], pos: usize) -> (r: Result<(Fields, usize), Error>) {
        match Vec::<Field>::deserialize(data, pos) {
            Ok((fields, end)) => Ok((Fields(fields), end)),
            Err(e) => Err(e),
        }
    }
}

/// A table of a database.
#[derive(Clone, Debug, PartialEq)]
pub struct OrderTable {
    /// The name of the table in the cloud.
    pub alias: String,
    /// The name of the table.
    pub table_name: String,
    /// The fields of the table.
    pub fields: Fields,
}

/// The mathematical model of an [`OrderTable`].
pub struct OrderTableView {
    pub alias: Seq<char>,
    pub table_name: Seq<char>,
    pub fields: Seq<FieldView>,
}

impl View for OrderTable {
    type V = OrderTableView;

    open spec fn view(&self) -> OrderTableView {
        OrderTableView {
            alias: self.alias@,
            table_name: self.table_name@,
            fields: self.fields@,
        }
    }
}

impl DeepView for OrderTable {
    type V = OrderTableView;

    open spec fn deep_view(&self) -> OrderTableView {
        self@
    }
}

impl Default for OrderTable {
    fn default() -> (r: OrderTable)
        ensures
            r@ == (OrderTableView {
                alias: Seq::empty(),
                table_name: Seq::empty(),
                fields: Seq::empty(),
            }),
    {
        OrderTable { alias: String::new(), table_name: String::new(), fields: Fields::default() }
    }
}

/// The parts of a table in the order in which they travel.
pub type TableParts = (String, (String, Fields));

/// The bytes of the table `v`: alias, name, fields.
#[verifier::opaque]
pub open spec fn table_wire(v: OrderTableView) -> Seq<u8> {
    TableParts::wire((v.alias, (v.table_name, v.fields)))
}

/// Whether the table `v` can be written.
#[verifier::opaque]
pub open spec fn table_fits(v: OrderTableView) -> bool {
    TableParts::fits((v.alias, (v.table_name, v.fields)))
}

/// The table at `pos`: alias, name, fields.
#[verifier::opaque]
pub open spec fn table_parse(data: Seq<u8>, pos: int) -> Parsed<OrderTableView> {
    match TableParts::parse(data, pos) {
        Err(e) => Err(e),
        Ok((f, end)) => Ok((OrderTableView { alias: f.0, table_name: f.1.0, fields: f.1.1 }, end)),
    }
}

impl Serialize for OrderTable {
    open spec fn wire(v: OrderTableView) -> Seq<u8> {
        table_wire(v)
    }

    open spec fn fits(v: OrderTableView) -> bool {
        table_fits(v)
    }

    fn serialize(&self, out: &mut Vec<u8>) -> (r: Result<(), Error>) {
        proof {
            reveal(table_wire);
            reveal(table_fits);
        }
        (&self.alias, (&self.table_name, &self.fields)).serialize(out)
    }
}

impl Deserialize for OrderTable {
    open spec fn parse(data: Seq<u8>, pos: int) -> Parsed<OrderTableView> {
        table_parse(data, pos)
    }

    proof fn lemma_parse_bounds(data: Seq<u8>, pos: int) {
        reveal(table_parse);
        TableParts::lemma_parse_bounds(data, pos);
    }

    fn deserialize(data: &[u8], pos: usize) -> (r: Result<(OrderTable, usize), Error>) {
        proof {
            reveal(table_parse);
        }
        match TableParts::deserialize(data, pos) {
            Ok(((alias, (table_name, fields)), end)) => Ok(
                (OrderTable { alias, table_name, fields }, end),
            ),
            Err(e) => Err(e),
        }
    }
}

/// The tables of a database, in order.
#[derive(Clone, Debug, PartialEq)]
pub struct SchemaOrderTables(pub Vec<OrderTable>);

impl View for SchemaOrderTables {
    type V = Seq<OrderTableView>;

    open spec fn view(&self) -> Seq<OrderTableView> {
        self.0.deep_view()
    }
}

impl DeepView for SchemaOrderTables {
    type V = Seq<OrderTableView>;

    open spec fn deep_view(&self) -> Seq<OrderTableView> {
        self@
    }
}

impl Default for SchemaOrderTables {
    fn default() -> (r: SchemaOrderTables)
        ensures
            r@ == Seq::<OrderTableView>::empty(),
    {
        let r = SchemaOrderTables(Vec::new());
        assert(r.0.deep_view() =~= Seq::<OrderTableView>::empty());
        r
    }
}

impl Serialize for SchemaOrderTables {
    open spec fn wire(v: Seq<OrderTableView>) -> Seq<u8> {
        Vec::<OrderTable>::wire(v)
    }

    open spec fn fits(v: Seq<OrderTableView>) -> bool {
        Vec::<OrderTable>::fits(v)
    }

    fn serialize(&self, out: &mut Vec<u8>) -> (r: Result<(), Error>) {
        self.0.serialize(out)
    }
}

impl Deserialize for SchemaOrderTables {
    open spec fn parse(data: Seq<u8>, pos: int) -> Parsed<Seq<OrderTableView>> {
        Vec::<OrderTable>::parse(data, pos)
    }

    proof fn lemma_parse_bounds(data: Seq<u8>, pos: int) {
        Vec::<OrderTable>::lemma_parse_bounds(data, pos);
    }

    fn deserialize(data: &[u8], pos: usize) -> (r: Result<(SchemaOrderTables, usize), Error>) {
        match Vec::<OrderTable>::deserialize(data, pos) {
            Ok((tables, end)) => Ok((SchemaOrderTables(tables), end)),
            Err(e) => Err(e),
        }
    }
}

/// A database of an application.
#[derive(Clone, Debug, PartialEq)]
pub struct Database {
    /// The name of the database in the cloud.
    pub alias: String,
    /// The name of the database.
    pub name: String,
    /// The tables of the database.
    pub tables: SchemaOrderTables,
}

/// The mathematical model of a [`Database`].
pub struct DatabaseView {
    pub alias: Seq<char>,
    pub name: Seq<char>,
    pub tables: Seq<OrderTableView>,
}

impl View for Database {
    type V = DatabaseView;

    open spec fn view(&self) -> DatabaseView {
        DatabaseView { alias: self.alias@, name: self.name@, tables: self.tables@ }
    }
}

impl DeepView for Database {
    type V = DatabaseView;

    open spec fn deep_view(&self) -> DatabaseView {
        self@
    }
}

impl Default for Database {
    fn default() -> (r: Database)
        ensures
            r@ == (DatabaseView { alias: Seq::empty(), name: Seq::empty(), tables: Seq::empty() }),
    {
        Database {
            alias: String::new(),
            name: String::new(),
            tables: SchemaOrderTables::default(),
        }
    }
}

/// The parts of a database in the order in which they travel.
pub type DatabaseParts = (String, (String, SchemaOrderTables));

/// The bytes of the database `v`: alias, name, tables.
#[verifier::opaque]
pub open spec fn database_wire(v: DatabaseView) -> Seq<u8> {
    DatabaseParts::wire((v.alias, (v.name, v.tables)))
}

/// Whether the database `v` can be written.
#[verifier::opaque]
pub open spec fn database_fits(v: DatabaseView) -> bool {
    DatabaseParts::fits((v.alias, (v.name, v.tables)))
}

/// The database at `pos`: alias, name, tables.
#[verifier::opaque]
pub open spec fn database_parse(data: Seq<u8>, pos: int) -> Parsed<DatabaseView> {
    match DatabaseParts::parse(data, pos) {
        Err(e) => Err(e),
        Ok((f, end)) => Ok((DatabaseView { alias: f.0, name: f.1.0, tables: f.1.1 }, end)),
    }
}

impl Serialize for Database {
    open spec fn wire(v: DatabaseView) -> Seq<u8> {
        database_wire(v)
    }

    open spec fn fits(v: DatabaseView) -> bool {
        database_fits(v)
    }

    fn serialize(&self, out: &mut Vec<u8>) -> (r: Result<(), Error>) {
        proof {
            reveal(database_wire);
            reveal(database_fits);
        }
        (&self.alias, (&self.name, &self.tables)).serialize(out)
    }
}

impl Deserialize for Database {
    open spec fn parse(data: Seq<u8>, pos: int) -> Parsed<DatabaseView> {
        database_parse(data, pos)
    }

    proof fn lemma_parse_bounds(data: Seq<u8>, pos: int) {
        reveal(database_parse);
        DatabaseParts::lemma_parse_bounds(data, pos);
    }

    fn deserialize(data: &[u8], pos: usize) -> (r: Result<(Database, usize), Error>) {
        proof {
            reveal(database_parse);
        }
        match DatabaseParts::deserialize(data, pos) {
            Ok(((alias, (name, tables)), end)) => Ok((Database { alias, name, tables }, end)),
            Err(e) => Err(e),
        }
    }
}

/// The databases of an application, in order.
#[derive(Clone, Debug, PartialEq)]
pub struct Databases(pub Vec<Database>);

impl View for Databases {
    type V = Seq<DatabaseView>;

    open spec fn view(&self) -> Seq<DatabaseView> {
        self.0.deep_view()
    }
}

impl DeepView for Databases {
    type V = Seq<DatabaseView>;

    open spec fn deep_view(&self) -> Seq<DatabaseView> {
        self@
    }
}

impl Default for Databases {
    fn default() -> (r: Databases)
        ensures
            r@ == Seq::<DatabaseView>::empty(),
    {
        let r = Databases(Vec::new());
        assert(r.0.deep_view() =~= Seq::<DatabaseView>::empty());
        r
    }
}

impl Serialize for Databases {
    open spec fn wire(v: Seq<DatabaseView>) -> Seq<u8> {
        Vec::<Database>::wire(v)
    }

    open spec fn fits(v: Seq<DatabaseView>) -> bool {
        Vec::<Database>::fits(v)
    }

    fn serialize(&self, out: &mut Vec<u8>) -> (r: Result<(), Error>) {
        self.0.serialize(out)
    }
}

impl Deserialize for Databases {
    open spec fn parse(data: Seq<u8>, pos: int) -> Parsed<Seq<DatabaseView>> {
        Vec::<Database>::parse(data, pos)
    }

    proof fn lemma_parse_bounds(data: Seq<u8>, pos: int) {
        Vec::<Database>::lemma_parse_bounds(data, pos);
    }

    fn deserialize(data: &[u8], pos: usize) -> (r: Result<(Databases, usize), Error>) {
        match Vec::<Database>::deserialize(data, pos) {
            Ok((databases, end)) => Ok((Databases(databases), end)),
            Err(e) => Err(e),
        }
    }
}

/// The schema of an application.
#[derive(Clone, Debug, PartialEq)]
pub struct Schema {
    /// The version of the schema.
    pub version: i32,
    /// The bundle that owns the schema.
    pub bundle_name: String,
    /// The databases of the application.
    pub databases: Databases,
}

/// The mathematical model of a [`Schema`].
pub struct SchemaView {
    pub version: i32,
    pub bundle_name: Seq<char>,
    pub databases: Seq<DatabaseView>,
}

impl View for Schema {
    type V = SchemaView;

    open spec fn view(&self) -> SchemaView {
        SchemaView {
            version: self.version,
            bundle_name: self.bundle_name@,
            databases: self.databases@,
        }
    }
}

impl DeepView for Schema {
    type V = SchemaView;

    open spec fn deep_view(&self) -> SchemaView {
        self@
    }
}

impl Default for Schema {
    fn default() -> (r: Schema)
        ensures
            r@ == (SchemaView { version: 0, bundle_name: Seq::empty(), databases: Seq::empty() }),
    {
        Schema { version: 0, bundle_name: String::new(), databases: Databases::default() }
    }
}

/// The parts of a schema in the order in which they travel.
pub type SchemaParts = (i32, (String, Databases));

/// The schema at `pos`: version, bundle, databases.
#[verifier::opaque]
pub open spec fn schema_parse(data: Seq<u8>, pos: int) -> Parsed<SchemaView> {
    match SchemaParts::parse(data, pos) {
        Err(e) => Err(e),
        Ok((f, end)) => Ok(
            (SchemaView { version: f.0, bundle_name: f.1.0, databases: f.1.1 }, end),
        ),
    }
}

/// What a reply to the request for a schema holds: a status, and behind the
/// status 0 the schema. Any other status is a reply that cannot be read.
pub open spec fn schema_reply_parse(data: Seq<u8>) -> Result<SchemaView, Error> {
    match i32::parse(data, 0) {
        Err(e) => Err(e),
        Ok((status, pos)) => if status == 0 {
            match schema_parse(data, pos) {
                Err(e) => Err(e),
                Ok((schema, _)) => Ok(schema),
            }
        } else {
            Err(Error::ReadMsgParcelFailed)
        },
    }
}

impl Deserialize for Schema {
    open spec fn parse(data: Seq<u8>, pos: int) -> Parsed<SchemaView> {
        schema_parse(data, pos)
    }

    proof fn lemma_parse_bounds(data: Seq<u8>, pos: int) {
        reveal(schema_parse);
        SchemaParts::lemma_parse_bounds(data, pos);
    }

    fn deserialize(data: &[u8], pos: usize) -> (r: Result<(Schema, usize), Error>) {
        proof {
            reveal(schema_parse);
        }
        match SchemaParts::deserialize(data, pos) {
            Ok(((version, (bundle_name, databases)), end)) => Ok(
                (Schema { version, bundle_name, databases }, end),
            ),
            Err(e) => Err(e),
        }
    }
}

impl Schema {
    /// Takes over the schema that `reply` holds.
    ///
    /// The schema is taken over as a whole or not at all: where the reply
    /// cannot be read to the end of the schema, `self` stays as it was.
    pub fn read(&mut self, reply: &[u8]) -> (r: Result<(), Error>)
        ensures
            match schema_reply_parse(reply@) {
                Ok(v) => r is Ok && final(self)@ == v,
                Err(e) => r == Err::<(), Error>(e) && *final(self) == *old(self),
            },
    {
        let (status, pos) = match i32::deserialize(reply, 0) {
            Ok(found) => found,
            Err(e) => {
                return Err(e);
            },
        };
        if status != 0 {
            return Err(Error::ReadMsgParcelFailed);
        }
        match Schema::deserialize(reply, pos) {
            Ok((schema, _)) => {
                *self = schema;
                Ok(())
            },
            Err(e) => Err(e),
        }
    }
}

} // verus!
