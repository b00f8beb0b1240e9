use vstd::prelude::*;
use vstd::string::StringExecFns;
use crate::celestia::cosm::{fixed_frame_name, Cosm};
use crate::celestia::frames::{Frame, PathSlots};
use crate::celestia::tree::{
    lemma_seek_finds, lemma_seek_misses, views, AngleUnit, ContextEntry, Euler3AxisDt, FrameTree,
};
use crate::celestia::wellformed::lemma_child_added_wf;
use crate::celestia::xb::Xb;
use crate::errors::NyxError;
use crate::utils::{
    chars_of, lowercase_of, spaced, str_eq, string_of, to_lowercase, trim, trimmed,
    underscores_to_spaces,
};

verus! {

/// A TOML table of the `toml` crate.
#[verifier::external_type_specification]
#[verifier::external_body]
#[verifier::reject_recursive_types(K)]
#[verifier::reject_recursive_types(V)]
pub struct ExTomlMap<K, V>(toml::map::Map<K, V>);

/// A TOML value of the `toml` crate.
#[verifier::external_type_specification]
#[verifier::external_body]
pub struct ExTomlValue(toml::Value);

/// The error of the `toml` crate's parser.
#[verifier::external_type_specification]
#[verifier::external_body]
pub struct ExTomlError(toml::de::Error);

/// What `str::parse` into a `toml::Table` returns for a text: the document
/// as a table, or why the text is no TOML document.
pub uninterp spec fn toml_parsed(text: Seq<char>) -> Result<
    toml::map::Map<String, toml::Value>,
    toml::de::Error,
>;

/// What `toml::de::Error::message` returns for an error: what went wrong, in
/// words.
pub uninterp spec fn toml_message(e: toml::de::Error) -> Seq<char>;

/// The keys of a TOML table, in the order in which `Map::keys` yields them.
pub uninterp spec fn toml_keys(table: toml::map::Map<String, toml::Value>) -> Seq<Seq<char>>;

/// What `Map::get` returns for a table and a key: the value under the key, if
/// the table has the key.
pub uninterp spec fn toml_value(table: toml::map::Map<String, toml::Value>, key: Seq<char>) -> Option<
    toml::Value,
>;

/// What `Value::as_str` returns for a value: its characters, if it is a
/// string.
pub uninterp spec fn toml_text(value: toml::Value) -> Option<Seq<char>>;

/// What `Value::as_table` returns for a value: the table, if it is one.
pub uninterp spec fn toml_table(value: toml::Value) -> Option<toml::map::Map<String, toml::Value>>;

/// `str::parse` into a `toml::Table`, which is the `toml` crate's `from_str`.
/// Nothing is proved of the call; the contract only names its result, which
/// the text determines.
#[verifier::external_body]
fn parse_toml(content: &str) -> (r: Result<toml::map::Map<String, toml::Value>, toml::de::Error>)
    ensures
        r == toml_parsed(content@),
{
    content.parse::<toml::map::Map<String, toml::Value>>()
}

/// `toml::de::Error::message`. The contract only names the words that come
/// back.
#[verifier::external_body]
fn toml_error_message(e: &toml::de::Error) -> (msg: String)
    ensures
        msg@ == toml_message(*e),
{
    e.message().to_string()
}

/// `toml::map::Map::keys`, each key copied. The contract only names the keys
/// that come back and their order.
#[verifier::external_body]
fn table_keys(table: &toml::map::Map<String, toml::Value>) -> (keys: Vec<String>)
    ensures
        views(keys@) == toml_keys(*table),
{
    table.keys().cloned().collect()
}

/// `toml::map::Map::get`. The contract only names the value that comes back.
#[verifier::external_body]
fn table_get<'a>(table: &'a toml::map::Map<String, toml::Value>, key: &str) -> (r: Option<
    &'a toml::Value,
>)
    ensures
        match r {
            Some(value) => toml_value(*table, key@) == Some(*value),
            None => toml_value(*table, key@) is None,
        },
{
    table.get(key)
}

/// `toml::Value::as_table`. The contract only names the table that comes
/// back.
#[verifier::external_body]
fn value_as_table(value: &toml::Value) -> (r: Option<&toml::map::Map<String, toml::Value>>)
    ensures
        match r {
            Some(table) => toml_table(*value) == Some(*table),
            None => toml_table(*value) is None,
        },
{
    value.as_table()
}

/// `toml::Value::as_str`. The contract only names the string that comes back.
#[verifier::external_body]
fn value_as_str(value: &toml::Value) -> (r: Option<&str>)
    ensures
        match r {
            Some(text) => toml_text(*value) == Some(text@),
            None => toml_text(*value) is None,
        },
{
    value.as_str()
}

/// How a frame is rotated against its parent, as a definition table gives it.
#[derive(Debug)]
pub struct RotationSerde {
    pub right_asc: String,
    pub declin: String,
    pub w: String,
    pub angle_unit: Option<String>,
    pub context: Vec<ContextEntry>,
}

/// What a `RotationSerde` holds.
pub struct RotationSerdeModel {
    pub right_asc: Seq<char>,
    pub declin: Seq<char>,
    pub w: Seq<char>,
    pub angle_unit: Option<Seq<char>>,
    /// Names and expressions.
    pub context: Seq<(Seq<char>, Seq<char>)>,
}

/// One entry of a frame definition table.
#[derive(Debug)]
pub struct FrameSerde {
    /// The key of the entry.
    pub name: String,
    /// The name of the frame from which the new frame takes its body and
    /// below which it is placed.
    pub inherit: Option<String>,
    pub rotation: RotationSerde,
}

/// What a `FrameSerde` holds.
pub struct FrameSerdeModel {
    pub name: Seq<char>,
    pub inherit: Option<Seq<char>>,
    pub rotation: RotationSerdeModel,
}

/// The characters of a text that may be absent.
pub open spec fn text_of(text: Option<String>) -> Option<Seq<char>> {
    match text {
        Some(t) => Some(t@),
        None => None,
    }
}

/// What a context holds: names and expressions.
pub open spec fn context_model(entries: Seq<ContextEntry>) -> Seq<(Seq<char>, Seq<char>)> {
    entries.map_values(|e: ContextEntry| (e.name@, e.expression@))
}

impl View for RotationSerde {
    type V = RotationSerdeModel;

    open spec fn view(&self) -> RotationSerdeModel {
        RotationSerdeModel {
            right_asc: self.right_asc@,
            declin: self.declin@,
            w: self.w@,
            angle_unit: text_of(self.angle_unit),
            context: context_model(self.context@),
        }
    }
}

impl View for FrameSerde {
    type V = FrameSerdeModel;

    open spec fn view(&self) -> FrameSerdeModel {
        FrameSerdeModel {
            name: self.name@,
            inherit: text_of(self.inherit),
            rotation: self.rotation@,
        }
    }
}

/// What a list of definitions holds.
pub open spec fn definition_views(definitions: Seq<FrameSerde>) -> Seq<FrameSerdeModel> {
    definitions.map_values(|d: FrameSerde| d@)
}

/// What the parser of expressions objects to in the three expressions of a
/// rotation. `None` means that the expression is well formed.
#[derive(Debug)]
pub struct ExpressionFaults {
    pub right_asc: Option<String>,
    pub declin: Option<String>,
    pub w: Option<String>,
}

/// What an `ExpressionFaults` holds.
pub struct FaultsModel {
    pub right_asc: Option<Seq<char>>,
    pub declin: Option<Seq<char>>,
    pub w: Option<Seq<char>>,
}

impl View for ExpressionFaults {
    type V = FaultsModel;

    open spec fn view(&self) -> FaultsModel {
        FaultsModel {
            right_asc: text_of(self.right_asc),
            declin: text_of(self.declin),
            w: text_of(self.w),
        }
    }
}

/// What `meval::Expr::from_str` returns for an expression: `None` when it
/// parses, else the words of the error.
pub uninterp spec fn meval_fault(expression: Seq<char>) -> Option<Seq<char>>;

/// A character that the parser of expressions skips between tokens: a blank,
/// a tab, a carriage return or a line feed.
pub open spec fn is_skipped(c: char) -> bool {
    c == ' ' || c == '\t' || c == '\r' || c == '\n'
}

/// An expression of one or more characters, all of which the parser skips.
pub open spec fn only_skipped(expression: Seq<char>) -> bool {
    expression.len() > 0 && forall|i: int| 0 <= i < expression.len() ==> is_skipped(expression[i])
}

/// `str::parse` into a `meval::Expr`, which is `meval::Expr::from_str`: the
/// expression is cut into tokens and put into reverse Polish notation. The
/// result is dropped; what comes back is `None` when there is one and the
/// words of the error otherwise. Nothing is proved of the call; the contract
/// only names what comes back, which the expression determines. The tokenizer
/// does not return on an expression that has characters and skips them all,
/// so such an expression is left out.
#[verifier::external_body]
fn parse_fault(expression: &str) -> (r: Option<String>)
    requires
        !only_skipped(expression@),
    ensures
        text_of(r) == meval_fault(expression@),
{
    match expression.parse::<meval::Expr>() {
        Ok(_) => None,
        Err(e) => Some(e.to_string()),
    }
}

/// What is wrong with an expression. The parser is the judge, but for an
/// expression that has characters and skips them all, on which the parser
/// does not return: such an expression lacks its argument, as the empty one
/// does.
pub open spec fn fault_of(expression: Seq<char>) -> Option<Seq<char>> {
    if only_skipped(expression) {
        Some("Parse error: Missing argument at the end of expression."@)
    } else {
        meval_fault(expression)
    }
}

/// Tells what is wrong with an expression, or `None` when it is well formed.
pub fn expression_fault(expression: &str) -> (r: Option<String>)
    ensures
        text_of(r) == fault_of(expression@),
{
    let chars = chars_of(expression);
    let mut i: usize = 0;
    while i < chars.len() && (chars[i] == ' ' || chars[i] == '\t' || chars[i] == '\r' || chars[i]
        == '\n')
        invariant
            i <= chars@.len(),
            chars@ == expression@,
            forall|j: int| 0 <= j < i ==> is_skipped(chars@[j]),
        decreases chars@.len() - i,
    {
        i += 1;
    }
    if chars.len() > 0 && i == chars.len() {
        Some("Parse error: Missing argument at the end of expression.".to_string())
    } else {
        proof {
            if chars@.len() > 0 {
                assert(!is_skipped(chars@[i as int]));
            }
        }
        parse_fault(expression)
    }
}

/// What is wrong with the three expressions of a rotation.
pub open spec fn faults_of(rotation: RotationSerdeModel) -> FaultsModel {
    FaultsModel {
        right_asc: fault_of(rotation.right_asc),
        declin: fault_of(rotation.declin),
        w: fault_of(rotation.w),
    }
}

/// Tells what is wrong with the three expressions of a rotation.
pub fn rotation_faults(rotation: &RotationSerde) -> (faults: ExpressionFaults)
    ensures
        faults@ == faults_of(rotation@),
{
    ExpressionFaults {
        right_asc: expression_fault(rotation.right_asc.as_str()),
        declin: expression_fault(rotation.declin.as_str()),
        w: expression_fault(rotation.w.as_str()),
    }
}

/// The unit that `text` names: `degrees` or `radians`, in any case.
pub open spec fn angle_unit_of(text: Seq<char>) -> Option<AngleUnit> {
    if lowercase_of(text) == "degrees"@ {
        Some(AngleUnit::Degrees)
    } else if lowercase_of(text) == "radians"@ {
        Some(AngleUnit::Radians)
    } else {
        None
    }
}

/// Reads the unit of the angles of a rotation.
pub fn angle_unit_from_str(text: &str) -> (r: Option<AngleUnit>)
    ensures
        r == angle_unit_of(text@),
{
    let lowered = to_lowercase(text);
    if str_eq(lowered.as_str(), "degrees") {
        Some(AngleUnit::Degrees)
    } else if str_eq(lowered.as_str(), "radians") {
        Some(AngleUnit::Radians)
    } else {
        None
    }
}

/// What a table holds under a key where a string belongs.
#[derive(Debug)]
pub enum Field {
    /// The table has no such key.
    Missing,
    /// The table has something else than a string there.
    Mistyped,
    Text(String),
}

/// What a `Field` holds.
pub enum FieldModel {
    Missing,
    Mistyped,
    Text(Seq<char>),
}

impl View for Field {
    type V = FieldModel;

    open spec fn view(&self) -> FieldModel {
        match *self {
            Field::Missing => FieldModel::Missing,
            Field::Mistyped => FieldModel::Mistyped,
            Field::Text(text) => FieldModel::Text(text@),
        }
    }
}

/// One entry of the table `context` of a rotation.
#[derive(Debug)]
pub struct ContextField {
    pub name: String,
    pub expression: Field,
}

/// What a `ContextField` holds.
pub struct ContextFieldModel {
    pub name: Seq<char>,
    pub expression: FieldModel,
}

impl View for ContextField {
    type V = ContextFieldModel;

    open spec fn view(&self) -> ContextFieldModel {
        ContextFieldModel { name: self.name@, expression: self.expression@ }
    }
}

/// What the entries of a context hold.
pub open spec fn context_views(entries: Seq<ContextField>) -> Seq<ContextFieldModel> {
    entries.map_values(|e: ContextField| e@)
}

/// What a rotation holds under the key `context`, where a table of strings
/// belongs.
#[derive(Debug)]
pub enum ContextFields {
    Missing,
    Mistyped,
    Entries(Vec<ContextField>),
}

/// What a `ContextFields` holds.
pub enum ContextFieldsModel {
    Missing,
    Mistyped,
    Entries(Seq<ContextFieldModel>),
}

impl View for ContextFields {
    type V = ContextFieldsModel;

    open spec fn view(&self) -> ContextFieldsModel {
        match *self {
            ContextFields::Missing => ContextFieldsModel::Missing,
            ContextFields::Mistyped => ContextFieldsModel::Mistyped,
            ContextFields::Entries(entries) => ContextFieldsModel::Entries(context_views(entries@)),
        }
    }
}

/// What the table `rotation` of an entry holds.
#[derive(Debug)]
pub struct RotationFields {
    pub right_asc: Field,
    pub declin: Field,
    pub w: Field,
    pub angle_unit: Field,
    pub context: ContextFields,
}

/// What a `RotationFields` holds.
pub struct RotationFieldsModel {
    pub right_asc: FieldModel,
    pub declin: FieldModel,
    pub w: FieldModel,
    pub angle_unit: FieldModel,
    pub context: ContextFieldsModel,
}

impl View for RotationFields {
    type V = RotationFieldsModel;

    open spec fn view(&self) -> RotationFieldsModel {
        RotationFieldsModel {
            right_asc: self.right_asc@,
            declin: self.declin@,
            w: self.w@,
            angle_unit: self.angle_unit@,
            context: self.context@,
        }
    }
}

/// What an entry holds under the key `rotation`, where a table belongs.
#[derive(Debug)]
pub enum RotationField {
    Missing,
    Mistyped,
    Table(RotationFields),
}

/// What a `RotationField` holds.
pub enum RotationFieldModel {
    Missing,
    Mistyped,
    Table(RotationFieldsModel),
}

impl View for RotationField {
    type V = RotationFieldModel;

    open spec fn view(&self) -> RotationFieldModel {
        match *self {
            RotationField::Missing => RotationFieldModel::Missing,
            RotationField::Mistyped => RotationFieldModel::Mistyped,
            RotationField::Table(rotation) => RotationFieldModel::Table(rotation@),
        }
    }
}

/// What one entry of a definition table holds, as it was read.
#[derive(Debug)]
pub struct FrameFields {
    /// The key of the entry.
    pub name: String,
    /// Whether something else than a table stands under the key.
    pub mistyped: bool,
    pub inherit: Field,
    pub rotation: RotationField,
}

/// What a `FrameFields` holds.
pub struct FrameFieldsModel {
    pub name: Seq<char>,
    pub mistyped: bool,
    pub inherit: FieldModel,
    pub rotation: RotationFieldModel,
}

impl View for FrameFields {
    type V = FrameFieldsModel;

    open spec fn view(&self) -> FrameFieldsModel {
        FrameFieldsModel {
            name: self.name@,
            mistyped: self.mistyped,
            inherit: self.inherit@,
            rotation: self.rotation@,
        }
    }
}

/// What a list of entries holds.
pub open spec fn field_views(entries: Seq<FrameFields>) -> Seq<FrameFieldsModel> {
    entries.map_values(|e: FrameFields| e@)
}

/// The text of a field that holds one.
pub open spec fn field_text(field: FieldModel) -> Option<Seq<char>> {
    match field {
        FieldModel::Text(t) => Some(t),
        _ => None,
    }
}

/// What is wrong with a field that must hold a string.
pub open spec fn required_fault(field: FieldModel, key: Seq<char>) -> Option<Seq<char>> {
    match field {
        FieldModel::Missing => Some("missing field `"@ + key + "`"@),
        FieldModel::Mistyped => Some("invalid type for `"@ + key + "`"@),
        FieldModel::Text(_) => None,
    }
}

/// What is wrong with a field that may hold a string.
pub open spec fn optional_fault(field: FieldModel, key: Seq<char>) -> Option<Seq<char>> {
    match field {
        FieldModel::Mistyped => Some("invalid type for `"@ + key + "`"@),
        _ => None,
    }
}

/// One of the first `n` entries of a context holds no string.
pub open spec fn context_fault(entries: Seq<ContextFieldModel>, n: nat) -> bool
    decreases n,
{
    if n == 0 || n > entries.len() {
        false
    } else {
        context_fault(entries, (n - 1) as nat) || !(entries[n - 1].expression is Text)
    }
}

/// What is wrong with the form of an entry: the first of the entry itself,
/// which must be a table; `inherit`, which may be a string; `rotation`, which
/// must be a table; `right_asc`, `declin` and `w`, which must be strings;
/// `angle_unit`, which may be a string; and `context`, which may be a table
/// of strings.
pub open spec fn schema_fault(fields: FrameFieldsModel) -> Option<Seq<char>> {
    if fields.mistyped {
        Some("invalid type for `"@ + fields.name + "`"@)
    } else if optional_fault(fields.inherit, "inherit"@) is Some {
        optional_fault(fields.inherit, "inherit"@)
    } else {
        match fields.rotation {
            RotationFieldModel::Missing => Some("missing field `rotation`"@),
            RotationFieldModel::Mistyped => Some("invalid type for `rotation`"@),
            RotationFieldModel::Table(rotation) => if required_fault(
                rotation.right_asc,
                "right_asc"@,
            ) is Some {
                required_fault(rotation.right_asc, "right_asc"@)
            } else if required_fault(rotation.declin, "declin"@) is Some {
                required_fault(rotation.declin, "declin"@)
            } else if required_fault(rotation.w, "w"@) is Some {
                required_fault(rotation.w, "w"@)
            } else if optional_fault(rotation.angle_unit, "angle_unit"@) is Some {
                optional_fault(rotation.angle_unit, "angle_unit"@)
            } else {
                match rotation.context {
                    ContextFieldsModel::Missing => None,
                    ContextFieldsModel::Mistyped => Some("invalid type for `context`"@),
                    ContextFieldsModel::Entries(entries) => if context_fault(
                        entries,
                        entries.len(),
                    ) {
                        Some("invalid type in `context`"@)
                    } else {
                        None
                    },
                }
            },
        }
    }
}

/// The names and expressions of the entries of a context, each of which
/// holds a string.
pub open spec fn entries_model(entries: Seq<ContextFieldModel>) -> Seq<(Seq<char>, Seq<char>)> {
    entries.map_values(|e: ContextFieldModel| (e.name, field_text(e.expression)->0))
}

/// The rotation that the well-formed table `rotation` defines.
pub open spec fn rotation_defined_by(rotation: RotationFieldsModel) -> RotationSerdeModel {
    RotationSerdeModel {
        right_asc: field_text(rotation.right_asc)->0,
        declin: field_text(rotation.declin)->0,
        w: field_text(rotation.w)->0,
        angle_unit: field_text(rotation.angle_unit),
        context: match rotation.context {
            ContextFieldsModel::Entries(entries) => entries_model(entries),
            _ => Seq::empty(),
        },
    }
}

/// The definition that the well-formed entry `fields` makes.
pub open spec fn defined_by(fields: FrameFieldsModel) -> FrameSerdeModel {
    FrameSerdeModel {
        name: fields.name,
        inherit: field_text(fields.inherit),
        rotation: rotation_defined_by(fields.rotation->Table_0),
    }
}

/// The message for a key that lacks its string.
fn missing_field(key: &str) -> (msg: String)
    ensures
        msg@ == "missing field `"@ + key@ + "`"@,
{
    String::from_str("missing field `").concat(key).concat("`")
}

/// The message for a key that holds something of the wrong type.
fn invalid_type(key: &str) -> (msg: String)
    ensures
        msg@ == "invalid type for `"@ + key@ + "`"@,
{
    String::from_str("invalid type for `").concat(key).concat("`")
}

/// The string of a field that must hold one.
fn required(field: Field, key: &str) -> (r: Result<String, NyxError>)
    ensures
        match required_fault(field@, key@) {
            Some(msg) => r matches Err(NyxError::LoadingError(m)) && m@ == msg,
            None => r matches Ok(text) && Some(text@) == field_text(field@),
        },
{
    match field {
        Field::Text(text) => Ok(text),
        Field::Missing => Err(NyxError::LoadingError(missing_field(key))),
        Field::Mistyped => Err(NyxError::LoadingError(invalid_type(key))),
    }
}

/// The string of a field that may hold one.
fn optional(field: Field, key: &str) -> (r: Result<Option<String>, NyxError>)
    ensures
        match optional_fault(field@, key@) {
            Some(msg) => r matches Err(NyxError::LoadingError(m)) && m@ == msg,
            None => r matches Ok(text) && text_of(text) == field_text(field@),
        },
{
    match field {
        Field::Text(text) => Ok(Some(text)),
        Field::Missing => Ok(None),
        Field::Mistyped => Err(NyxError::LoadingError(invalid_type(key))),
    }
}

impl FrameSerde {
    /// Makes a definition of an entry as it was read, if the entry has the
    /// form of one.
    ///
    /// Fails with `LoadingError` and the words of `schema_fault` otherwise.
    pub fn from_fields(fields: FrameFields) -> (r: Result<FrameSerde, NyxError>)
        ensures
            match schema_fault(fields@) {
                Some(msg) => r matches Err(NyxError::LoadingError(m)) && m@ == msg,
                None => r matches Ok(definition) && definition@ == defined_by(fields@),
            },
    {
        let FrameFields { name, mistyped, inherit, rotation } = fields;
        if mistyped {
            return Err(NyxError::LoadingError(invalid_type(name.as_str())));
        }
        let inherit = match optional(inherit, "inherit") {
            Ok(inherit) => inherit,
            Err(e) => {
                return Err(e);
            },
        };
        let rotation = match rotation {
            RotationField::Table(rotation) => rotation,
            RotationField::Missing => {
                return Err(NyxError::LoadingError("missing field `rotation`".to_string()));
            },
            RotationField::Mistyped => {
                return Err(NyxError::LoadingError("invalid type for `rotation`".to_string()));
            },
        };
        let RotationFields { right_asc, declin, w, angle_unit, context } = rotation;
        let right_asc = match required(right_asc, "right_asc") {
            Ok(text) => text,
            Err(e) => {
                return Err(e);
            },
        };
        let declin = match required(declin, "declin") {
            Ok(text) => text,
            Err(e) => {
                return Err(e);
            },
        };
        let w = match required(w, "w") {
            Ok(text) => text,
            Err(e) => {
                return Err(e);
            },
        };
        let angle_unit = match optional(angle_unit, "angle_unit") {
            Ok(text) => text,
            Err(e) => {
                return Err(e);
            },
        };
        let mut entries: Vec<ContextEntry> = Vec::new();
        assert(context_model(entries@) =~= Seq::<(Seq<char>, Seq<char>)>::empty());
        match context {
            ContextFields::Missing => {},
            ContextFields::Mistyped => {
                return Err(NyxError::LoadingError("invalid type for `context`".to_string()));
            },
            ContextFields::Entries(given) => {
                let ghost all = context_views(given@);
                let ghost fault = if context_fault(all, all.len()) {
                    Some("invalid type in `context`"@)
                } else {
                    None
                };
                assert(schema_fault(fields@) == fault);
                let mut pending = given;
                let mut reversed: Vec<ContextField> = Vec::new();
                while pending.len() > 0
                    invariant
                        pending@.len() + reversed@.len() == all.len(),
                        forall|j: int|
                            0 <= j < reversed@.len() ==> (#[trigger] reversed@[j])@ == all[all.len()
                                - 1 - j],
                        forall|j: int|
                            0 <= j < pending@.len() ==> (#[trigger] pending@[j])@ == all[j],
                    decreases pending@.len(),
                {
                    match pending.pop() {
                        Some(entry) => {
                            reversed.push(entry);
                        },
                        None => {},
                    }
                }
                while reversed.len() > 0
                    invariant
                        reversed@.len() <= all.len(),
                        schema_fault(fields@) == fault,
                        fault == if context_fault(all, all.len()) {
                            Some("invalid type in `context`"@)
                        } else {
                            None
                        },
                        forall|j: int|
                            0 <= j < reversed@.len() ==> (#[trigger] reversed@[j])@ == all[all.len()
                                - 1 - j],
                        !context_fault(all, (all.len() - reversed@.len()) as nat),
                        context_model(entries@) == entries_model(
                            all.take(all.len() - reversed@.len()),
                        ),
                    decreases reversed@.len(),
                {
                    let ghost k = all.len() - reversed@.len();
                    let ghost before = entries@;
                    match reversed.pop() {
                        Some(entry) => {
                            assert(entry@ == all[k]);
                            let ContextField { name: key, expression } = entry;
                            match expression {
                                Field::Text(text) => {
                                    entries.push(ContextEntry { name: key, expression: text });
                                    proof {
                                        assert(all.take(k + 1).drop_last() =~= all.take(k));
                                        assert(context_model(entries@) =~= context_model(
                                            before,
                                        ).push((key@, text@)));
                                        assert(entries_model(all.take(k + 1)) =~= entries_model(
                                            all.take(k),
                                        ).push((all[k].name, field_text(all[k].expression)->0)));
                                    }
                                },
                                _ => {
                                    proof {
                                        assert(context_fault(all, (k + 1) as nat));
                                        lemma_context_fault_stays(all, (k + 1) as nat, all.len());
                                    }
                                    return Err(
                                        NyxError::LoadingError(
                                            "invalid type in `context`".to_string(),
                                        ),
                                    );
                                },
                            }
                        },
                        None => {},
                    }
                }
                assert(all.take(all.len() as int) =~= all);
            },
        }
        Ok(
            FrameSerde {
                name,
                inherit,
                rotation: RotationSerde { right_asc, declin, w, angle_unit, context: entries },
            },
        )
    }
}

/// An entry of a context that holds no string is found however far one
/// looks beyond it.
pub proof fn lemma_context_fault_stays(entries: Seq<ContextFieldModel>, n: nat, m: nat)
    requires
        context_fault(entries, n),
        n <= m <= entries.len(),
    ensures
        context_fault(entries, m),
    decreases m - n,
{
    if n < m {
        lemma_context_fault_stays(entries, n, (m - 1) as nat);
    }
}

/// What a table holds under `key`, where a string belongs.
pub open spec fn field_of(table: toml::map::Map<String, toml::Value>, key: Seq<char>) -> FieldModel {
    match toml_value(table, key) {
        None => FieldModel::Missing,
        Some(value) => match toml_text(value) {
            None => FieldModel::Mistyped,
            Some(text) => FieldModel::Text(text),
        },
    }
}

/// The table under `key`, if the table has the key and a table is under it.
pub open spec fn subtable_of(table: toml::map::Map<String, toml::Value>, key: Seq<char>) -> Option<
    Option<toml::map::Map<String, toml::Value>>,
> {
    match toml_value(table, key) {
        None => None,
        Some(value) => Some(toml_table(value)),
    }
}

/// The entries of a table `context`, in the order of its keys.
pub open spec fn context_entries_of(table: toml::map::Map<String, toml::Value>) -> Seq<
    ContextFieldModel,
> {
    toml_keys(table).map_values(
        |key: Seq<char>| ContextFieldModel { name: key, expression: field_of(table, key) },
    )
}

/// What a table `rotation` holds.
pub open spec fn rotation_of(table: toml::map::Map<String, toml::Value>) -> RotationFieldsModel {
    RotationFieldsModel {
        right_asc: field_of(table, "right_asc"@),
        declin: field_of(table, "declin"@),
        w: field_of(table, "w"@),
        angle_unit: field_of(table, "angle_unit"@),
        context: match subtable_of(table, "context"@) {
            None => ContextFieldsModel::Missing,
            Some(None) => ContextFieldsModel::Mistyped,
            Some(Some(entries)) => ContextFieldsModel::Entries(context_entries_of(entries)),
        },
    }
}

/// What the table `frames` holds under `key`.
pub open spec fn entry_of(frames: toml::map::Map<String, toml::Value>, key: Seq<char>) -> FrameFieldsModel {
    match subtable_of(frames, key) {
        Some(Some(entry)) => FrameFieldsModel {
            name: key,
            mistyped: false,
            inherit: field_of(entry, "inherit"@),
            rotation: match subtable_of(entry, "rotation"@) {
                None => RotationFieldModel::Missing,
                Some(None) => RotationFieldModel::Mistyped,
                Some(Some(rotation)) => RotationFieldModel::Table(rotation_of(rotation)),
            },
        },
        _ => FrameFieldsModel {
            name: key,
            mistyped: true,
            inherit: FieldModel::Missing,
            rotation: RotationFieldModel::Missing,
        },
    }
}

/// The entries of a table `frames`, in the order of its keys.
pub open spec fn entries_of(frames: toml::map::Map<String, toml::Value>) -> Seq<FrameFieldsModel> {
    toml_keys(frames).map_values(|key: Seq<char>| entry_of(frames, key))
}

/// The entries of the definition table that a text holds, or why it holds
/// none: the text is no TOML document, or the document has no table `frames`.
pub open spec fn fields_of(text: Seq<char>) -> Result<Seq<FrameFieldsModel>, Seq<char>> {
    match toml_parsed(text) {
        Err(e) => Err(toml_message(e)),
        Ok(document) => match subtable_of(document, "frames"@) {
            None => Err("missing field `frames`"@),
            Some(None) => Err("invalid type for `frames`"@),
            Some(Some(frames)) => Ok(entries_of(frames)),
        },
    }
}

/// The definitions that the first `n` entries make, or what is wrong with
/// the first entry that has not the form of one.
pub open spec fn definitions_upto(entries: Seq<FrameFieldsModel>, n: nat) -> Result<
    Seq<FrameSerdeModel>,
    Seq<char>,
>
    decreases n,
{
    if n == 0 || n > entries.len() {
        Ok(Seq::empty())
    } else {
        match definitions_upto(entries, (n - 1) as nat) {
            Err(msg) => Err(msg),
            Ok(before) => match schema_fault(entries[n - 1]) {
                Some(msg) => Err(msg),
                None => Ok(before.push(defined_by(entries[n - 1]))),
            },
        }
    }
}

/// The definitions of the table that a text holds, in the order of their
/// keys, or why it holds none.
pub open spec fn definitions_of(text: Seq<char>) -> Result<Seq<FrameSerdeModel>, Seq<char>> {
    match fields_of(text) {
        Err(msg) => Err(msg),
        Ok(entries) => definitions_upto(entries, entries.len()),
    }
}

/// What the table holds under `key`, where a string belongs.
fn field(table: &toml::map::Map<String, toml::Value>, key: &str) -> (f: Field)
    ensures
        f@ == field_of(*table, key@),
{
    match table_get(table, key) {
        Some(value) => match value_as_str(value) {
            Some(text) => Field::Text(text.to_string()),
            None => Field::Mistyped,
        },
        None => Field::Missing,
    }
}

/// The table under `key`, if the table has the key and a table is under it.
fn subtable<'a>(table: &'a toml::map::Map<String, toml::Value>, key: &str) -> (r: Option<
    Option<&'a toml::map::Map<String, toml::Value>>,
>)
    ensures
        match r {
            None => subtable_of(*table, key@) is None,
            Some(None) => subtable_of(*table, key@) == Some(
                None::<toml::map::Map<String, toml::Value>>,
            ),
            Some(Some(found)) => subtable_of(*table, key@) == Some(Some(*found)),
        },
{
    match table_get(table, key) {
        Some(value) => Some(value_as_table(value)),
        None => None,
    }
}

/// The entries of a table `context`, in the order of its keys.
fn context_fields(table: &toml::map::Map<String, toml::Value>) -> (fields: Vec<ContextField>)
    ensures
        context_views(fields@) == context_entries_of(*table),
{
    let keys = table_keys(table);
    let mut fields: Vec<ContextField> = Vec::new();
    let mut i: usize = 0;
    while i < keys.len()
        invariant
            i <= keys@.len(),
            views(keys@) == toml_keys(*table),
            fields@.len() == i,
            forall|j: int|
                0 <= j < i ==> (#[trigger] fields@[j])@ == (ContextFieldModel {
                    name: toml_keys(*table)[j],
                    expression: field_of(*table, toml_keys(*table)[j]),
                }),
        decreases keys@.len() - i,
    {
        assert(views(keys@)[i as int] == keys@[i as int]@);
        let expression = field(table, keys[i].as_str());
        fields.push(ContextField { name: keys[i].clone(), expression });
        i += 1;
    }
    assert(views(keys@).len() == keys@.len());
    assert(context_views(fields@) =~= context_entries_of(*table));
    fields
}

/// What a table `rotation` holds.
fn rotation_fields(table: &toml::map::Map<String, toml::Value>) -> (r: RotationFields)
    ensures
        r@ == rotation_of(*table),
{
    let context = match subtable(table, "context") {
        Some(Some(entries)) => ContextFields::Entries(context_fields(entries)),
        Some(None) => ContextFields::Mistyped,
        None => ContextFields::Missing,
    };
    RotationFields {
        right_asc: field(table, "right_asc"),
        declin: field(table, "declin"),
        w: field(table, "w"),
        angle_unit: field(table, "angle_unit"),
        context,
    }
}

/// What the table `frames` holds under `key`.
fn entry_fields(frames: &toml::map::Map<String, toml::Value>, key: &String) -> (r: FrameFields)
    ensures
        r@ == entry_of(*frames, key@),
{
    match subtable(frames, key.as_str()) {
        Some(Some(entry)) => FrameFields {
            name: key.clone(),
            mistyped: false,
            inherit: field(entry, "inherit"),
            rotation: match subtable(entry, "rotation") {
                Some(Some(rotation)) => RotationField::Table(rotation_fields(rotation)),
                Some(None) => RotationField::Mistyped,
                None => RotationField::Missing,
            },
        },
        _ => FrameFields {
            name: key.clone(),
            mistyped: true,
            inherit: Field::Missing,
            rotation: RotationField::Missing,
        },
    }
}

/// Reads the entries of a definition table: those of the table `frames` of a
/// TOML document, in the order of their keys, each as it stands.
///
/// Fails with `LoadingError` when the text is no TOML document, with the
/// words of the parser, or has no table `frames`.
pub fn frame_fields_from_toml(toml_content: &str) -> (r: Result<Vec<FrameFields>, NyxError>)
    ensures
        match fields_of(toml_content@) {
            Err(msg) => r matches Err(NyxError::LoadingError(m)) && m@ == msg,
            Ok(entries) => r matches Ok(read) && field_views(read@) == entries,
        },
{
    let document = match parse_toml(toml_content) {
        Ok(document) => document,
        Err(e) => {
            return Err(NyxError::LoadingError(toml_error_message(&e)));
        },
    };
    let frames = match subtable(&document, "frames") {
        Some(Some(frames)) => frames,
        Some(None) => {
            return Err(NyxError::LoadingError("invalid type for `frames`".to_string()));
        },
        None => {
            return Err(NyxError::LoadingError("missing field `frames`".to_string()));
        },
    };
    let keys = table_keys(frames);
    let mut entries: Vec<FrameFields> = Vec::new();
    let mut i: usize = 0;
    while i < keys.len()
        invariant
            i <= keys@.len(),
            views(keys@) == toml_keys(*frames),
            entries@.len() == i,
            forall|j: int|
                0 <= j < i ==> (#[trigger] entries@[j])@ == entry_of(*frames, toml_keys(*frames)[j]),
        decreases keys@.len() - i,
    {
        assert(views(keys@)[i as int] == keys@[i as int]@);
        let fields = entry_fields(frames, &keys[i]);
        entries.push(fields);
        i += 1;
    }
    assert(views(keys@).len() == keys@.len());
    assert(field_views(entries@) =~= entries_of(*frames));
    Ok(entries)
}

/// Reads a frame definition table: the entries of the table `frames` of a TOML
/// document, in the order of their keys. Each entry has a table `rotation`
/// with the strings `right_asc`, `declin` and `w`, and may have the strings
/// `inherit` and `rotation.angle_unit` and a table `rotation.context` of
/// strings. Other keys are passed over.
///
/// Fails with `LoadingError` when the text is no TOML document, has no table
/// `frames`, or has an entry that is not of this form; the first such entry
/// decides the words.
pub fn frame_definitions_from_toml(toml_content: &str) -> (r: Result<Vec<FrameSerde>, NyxError>)
    ensures
        match definitions_of(toml_content@) {
            Err(msg) => r matches Err(NyxError::LoadingError(m)) && m@ == msg,
            Ok(definitions) => r matches Ok(read) && definition_views(read@) == definitions,
        },
{
    let entries = match frame_fields_from_toml(toml_content) {
        Ok(entries) => entries,
        Err(e) => {
            return Err(e);
        },
    };
    let ghost all = field_views(entries@);
    let mut pending = entries;
    let mut reversed: Vec<FrameFields> = Vec::new();
    while pending.len() > 0
        invariant
            pending@.len() + reversed@.len() == all.len(),
            forall|j: int|
                0 <= j < reversed@.len() ==> (#[trigger] reversed@[j])@ == all[all.len() - 1 - j],
            forall|j: int| 0 <= j < pending@.len() ==> (#[trigger] pending@[j])@ == all[j],
        decreases pending@.len(),
    {
        match pending.pop() {
            Some(entry) => {
                reversed.push(entry);
            },
            None => {},
        }
    }
    let mut definitions: Vec<FrameSerde> = Vec::new();
    assert(definition_views(definitions@) =~= Seq::<FrameSerdeModel>::empty());
    while reversed.len() > 0
        invariant
            reversed@.len() <= all.len(),
            fields_of(toml_content@) == Ok::<Seq<FrameFieldsModel>, Seq<char>>(all),
            forall|j: int|
                0 <= j < reversed@.len() ==> (#[trigger] reversed@[j])@ == all[all.len() - 1 - j],
            definitions_upto(all, (all.len() - reversed@.len()) as nat) == Ok::<
                Seq<FrameSerdeModel>,
                Seq<char>,
            >(definition_views(definitions@)),
        decreases reversed@.len(),
    {
        let ghost k = (all.len() - reversed@.len()) as nat;
        let ghost before = definitions@;
        match reversed.pop() {
            Some(entry) => {
                assert(entry@ == all[k as int]);
                match FrameSerde::from_fields(entry) {
                    Ok(definition) => {
                        definitions.push(definition);
                        assert(definition_views(definitions@) =~= definition_views(before).push(
                            definition@,
                        ));
                    },
                    Err(e) => {
                        proof {
                            lemma_definitions_fail(all, k + 1, all.len());
                        }
                        return Err(e);
                    },
                }
            },
            None => {},
        }
    }
    Ok(definitions)
}

/// Once an entry has not the form of a definition, the entries after it
/// change nothing.
pub proof fn lemma_definitions_fail(entries: Seq<FrameFieldsModel>, n: nat, m: nat)
    requires
        definitions_upto(entries, n) is Err,
        n <= m <= entries.len(),
    ensures
        definitions_upto(entries, m) == definitions_upto(entries, n),
    decreases m - n,
{
    if n < m {
        lemma_definitions_fail(entries, n, (m - 1) as nat);
    }
}

impl FrameTree {
    /// `after` is this tree with `child` added as the last child of the node
    /// at `path` and nothing else changed. A path that leads nowhere changes
    /// nothing.
    pub open spec fn child_added(self, after: FrameTree, path: Seq<usize>, child: FrameTree) -> bool
        decreases path.len(),
    {
        if path.len() == 0 {
            &&& after.name == self.name
            &&& after.frame == self.frame
            &&& after.parent_rotation == self.parent_rotation
            &&& after.children@ == self.children@.push(child)
        } else if path[0] < self.children@.len() {
            &&& after.name == self.name
            &&& after.frame == self.frame
            &&& after.parent_rotation == self.parent_rotation
            &&& after.children@.len() == self.children@.len()
            &&& forall|j: int|
                0 <= j < self.children@.len() && j != path[0] ==> after.children@[j]
                    == self.children@[j]
            &&& self.children@[path[0] as int].child_added(
                after.children@[path[0] as int],
                path.drop_first(),
                child,
            )
        } else {
            after == self
        }
    }

    /// Adds `child` as the last child of the node at `path`. A path that leads
    /// nowhere changes nothing.
    pub fn push_child_at(&mut self, path: &[usize], child: FrameTree)
        ensures
            old(self).child_added(*final(self), path@, child),
    {
        assert(path@.skip(0) =~= path@);
        Self::push_child_from(self, path, 0, child);
    }

    fn push_child_from(node: &mut FrameTree, path: &[usize], depth: usize, child: FrameTree)
        requires
            depth <= path@.len(),
        ensures
            old(node).child_added(*final(node), path@.skip(depth as int), child),
        decreases path@.len() - depth,
    {
        if depth == path.len() {
            node.children.push(child);
        } else {
            let next = path[depth];
            assert(path@.skip(depth as int)[0] == next);
            assert(path@.skip(depth as int).drop_first() =~= path@.skip(depth + 1));
            if next < node.children.len() {
                Self::push_child_from(&mut node.children[next], path, depth + 1, child);
            }
        }
    }
}

impl FrameTree {
    /// Every node of this tree is found in `after` at its path, with its
    /// name, its frame and its rotation.
    pub open spec fn kept_in(self, after: FrameTree) -> bool {
        forall|path: Seq<usize>|
            #![trigger after.node_at(path)]
            self.node_at(path) is Some ==> Self::same_node(self.node_at(path), after.node_at(path))
    }

    /// Two nodes that both exist and agree in name, frame and rotation.
    pub open spec fn same_node(a: Option<FrameTree>, b: Option<FrameTree>) -> bool {
        &&& a matches Some(x)
        &&& b matches Some(y)
        &&& x.name == y.name
        &&& x.frame == y.frame
        &&& x.parent_rotation == y.parent_rotation
    }
}

/// Adding a child leaves the node at `q` where and what it was.
pub proof fn lemma_child_added_keeps_at(
    before: FrameTree,
    after: FrameTree,
    path: Seq<usize>,
    child: FrameTree,
    q: Seq<usize>,
)
    requires
        before.child_added(after, path, child),
        before.node_at(q) is Some,
    ensures
        FrameTree::same_node(before.node_at(q), after.node_at(q)),
    decreases q.len(),
{
    if q.len() > 0 {
        let i = q[0] as int;
        if path.len() == 0 {
            assert(after.children@[i] == before.children@[i]);
        } else if path[0] < before.children@.len() {
            if q[0] == path[0] {
                lemma_child_added_keeps_at(
                    before.children@[i],
                    after.children@[i],
                    path.drop_first(),
                    child,
                    q.drop_first(),
                );
            } else {
                assert(after.children@[i] == before.children@[i]);
            }
        }
    }
}

/// Adding a child keeps every node that was there.
pub proof fn lemma_child_added_keeps(
    before: FrameTree,
    after: FrameTree,
    path: Seq<usize>,
    child: FrameTree,
)
    requires
        before.child_added(after, path, child),
    ensures
        before.kept_in(after),
{
    assert forall|q: Seq<usize>| before.node_at(q) is Some implies FrameTree::same_node(
        before.node_at(q),
        #[trigger] after.node_at(q),
    ) by {
        lemma_child_added_keeps_at(before, after, path, child, q);
    }
}

/// What is kept from `a` to `b` and from `b` to `c` is kept from `a` to `c`.
pub proof fn lemma_kept_transitive(a: FrameTree, b: FrameTree, c: FrameTree)
    requires
        a.kept_in(b),
        b.kept_in(c),
    ensures
        a.kept_in(c),
{
    assert forall|q: Seq<usize>| a.node_at(q) is Some implies FrameTree::same_node(
        a.node_at(q),
        #[trigger] c.node_at(q),
    ) by {
        assert(FrameTree::same_node(a.node_at(q), b.node_at(q)));
        assert(FrameTree::same_node(b.node_at(q), c.node_at(q)));
    }
}

/// The child that was added is found under its parent, behind the children
/// that the parent had.
pub proof fn lemma_child_added_node(
    before: FrameTree,
    after: FrameTree,
    path: Seq<usize>,
    child: FrameTree,
)
    requires
        before.node_at(path) is Some,
        before.child_added(after, path, child),
    ensures
        after.node_at(path.push(before.node_at(path)->0.children@.len() as usize)) == Some(child),
    decreases path.len(),
{
    let index = before.node_at(path)->0.children@.len() as usize;
    if path.len() == 0 {
        assert(path.push(index).drop_first() =~= Seq::<usize>::empty());
        assert(before.children@.len() == before.children.len());
        assert(after.children@[index as int] == child);
        assert(child.node_at(Seq::<usize>::empty()) == Some(child));
    } else {
        assert(path.push(index).drop_first() =~= path.drop_first().push(index));
        lemma_child_added_node(
            before.children@[path[0] as int],
            after.children@[path[0] as int],
            path.drop_first(),
            child,
        );
    }
}

/// What becomes of one entry of a definition table.
pub enum Verdict {
    /// An expression is not well formed: which one, how it reads, and what
    /// the parser says.
    Fault { field: Seq<char>, expression: Seq<char>, fault: Seq<char> },
    /// The unit of angles is unknown.
    UnknownUnit,
    /// The entry inherits from nothing and is passed over.
    Skipped,
    /// The frame that the entry inherits from is unknown; its stored name.
    UnknownParent { name: Seq<char> },
    /// The frame that the entry inherits from has no body below the root, or
    /// lies three levels deep already, or records a place that does not exist.
    Misplaced,
    /// The frame is added as the last child of the node at `parent`.
    Added { parent: Seq<usize>, name: Seq<char>, frame: Frame, angle_unit: AngleUnit },
}

/// The message of the error for an expression that is not well formed.
pub open spec fn fault_message(
    name: Seq<char>,
    field: Seq<char>,
    expression: Seq<char>,
    fault: Seq<char>,
) -> Seq<char> {
    "[frame."@ + name + "] - could not parse "@ + field + " `"@ + expression
        + "` - are there any special characters? "@ + fault
}

/// The unit of the angles of a rotation: degrees unless the table says
/// otherwise.
pub open spec fn unit_of(rotation: RotationSerdeModel) -> Option<AngleUnit> {
    match rotation.angle_unit {
        Some(text) => angle_unit_of(text),
        None => Some(AngleUnit::Degrees),
    }
}

impl Cosm {
    /// What becomes of `definition`, given what is wrong with the expressions
    /// of its rotation. These are looked at in this order: the three
    /// expressions, the unit of angles, whether the entry inherits at all, the
    /// frame it inherits from, and the place of that frame.
    pub open spec fn verdict(self, definition: FrameSerdeModel, faults: FaultsModel) -> Verdict {
        let rotation = definition.rotation;
        if faults.right_asc is Some {
            Verdict::Fault {
                field: "right_asc"@,
                expression: rotation.right_asc,
                fault: faults.right_asc->0,
            }
        } else if faults.declin is Some {
            Verdict::Fault {
                field: "declin"@,
                expression: rotation.declin,
                fault: faults.declin->0,
            }
        } else if faults.w is Some {
            Verdict::Fault { field: "w"@, expression: rotation.w, fault: faults.w->0 }
        } else if unit_of(rotation) is None {
            Verdict::UnknownUnit
        } else if definition.inherit is None {
            Verdict::Skipped
        } else {
            match self.spec_frame(definition.inherit->0) {
                None => Verdict::UnknownParent { name: fixed_frame_name(definition.inherit->0) },
                Some(parent) => {
                    let place = parent.frame_slots()@;
                    let body = parent.ephem_slots()@;
                    match self.frame_root.node_at(place) {
                        None => Verdict::Misplaced,
                        Some(node) => if body.len() == 0 || place.len() >= 3 {
                            Verdict::Misplaced
                        } else {
                            Verdict::Added {
                                parent: place,
                                name: trimmed(spaced(definition.name)),
                                frame: parent.with_paths(
                                    Self::packed_slots(body),
                                    Self::packed_slots(
                                        place.push(node.children@.len() as usize),
                                    ),
                                ),
                                angle_unit: unit_of(rotation)->0,
                            }
                        },
                    }
                },
            }
        }
    }

    /// The slots filled from the front with a path of at most three levels.
    pub open spec fn packed_slots(path: Seq<usize>) -> PathSlots {
        PathSlots {
            first: if path.len() > 0 {
                Some(path[0])
            } else {
                None
            },
            second: if path.len() > 1 {
                Some(path[1])
            } else {
                None
            },
            third: if path.len() > 2 {
                Some(path[2])
            } else {
                None
            },
        }
    }

    /// `child` is the node made for `definition` under the verdict `Added`.
    pub open spec fn made_for(
        child: FrameTree,
        definition: FrameSerdeModel,
        name: Seq<char>,
        frame: Frame,
        angle_unit: AngleUnit,
    ) -> bool {
        &&& child.name@ == name
        &&& child.frame == frame
        &&& child.children@.len() == 0
        &&& child.parent_rotation matches Some(rotation)
        &&& rotation.right_asc@ == definition.rotation.right_asc
        &&& rotation.declin@ == definition.rotation.declin
        &&& rotation.w@ == definition.rotation.w
        &&& context_model(rotation.context@) == definition.rotation.context
        &&& rotation.angle_unit == angle_unit
    }

    fn place_frame(&mut self, definition: FrameSerde, faults: ExpressionFaults) -> (r: Result<
        bool,
        NyxError,
    >)
        ensures
            final(self).xb == old(self).xb,
            final(self).ephem2frame_map == old(self).ephem2frame_map,
            old(self).frame_root.kept_in(final(self).frame_root),
            old(self).wf() ==> final(self).wf(),
            !(old(self).verdict(definition@, faults@) is Added) ==> final(self).frame_root == old(
                self,
            ).frame_root,
            old(self).verdict(definition@, faults@) matches Verdict::Fault {
                field,
                expression,
                fault,
            } ==> r matches Err(NyxError::LoadingError(msg)) && msg@ == fault_message(
                definition@.name,
                field,
                expression,
                fault,
            ),
            old(self).verdict(definition@, faults@) is UnknownUnit ==> (r matches Err(
                NyxError::LoadingError(msg),
            ) && msg@ == "unknown angle unit"@),
            old(self).verdict(definition@, faults@) is Skipped ==> r == Ok::<bool, NyxError>(false),
            old(self).verdict(definition@, faults@) matches Verdict::UnknownParent { name } ==> r matches Err(
                NyxError::ObjectNotFound(n),
            ) && n@ == name,
            old(self).verdict(definition@, faults@) is Misplaced ==> (r matches Err(
                NyxError::LoadingError(msg),
            ) && msg@ == "cannot place a frame there"@),
            old(self).verdict(definition@, faults@) matches Verdict::Added {
                parent,
                name,
                frame,
                angle_unit,
            } ==> {
                let index = old(self).frame_root.node_at(parent)->0.children@.len() as usize;
                let child = final(self).frame_root.node_at(parent.push(index));
                &&& r == Ok::<bool, NyxError>(true)
                &&& child is Some
                &&& Self::made_for(child->0, definition@, name, frame, angle_unit)
                &&& old(self).frame_root.child_added(final(self).frame_root, parent, child->0)
                &&& final(self).frame_root.seek(name) is Some
            },
    {
        let FrameSerde { name, inherit, rotation } = definition;
        let RotationSerde { right_asc, declin, w, angle_unit, context } = rotation;
        let ExpressionFaults { right_asc: ra_fault, declin: declin_fault, w: w_fault } = faults;
        if let Some(fault) = ra_fault {
            return Err(
                NyxError::LoadingError(
                    Self::fault_text(
                        name.as_str(),
                        "right_asc",
                        right_asc.as_str(),
                        fault.as_str(),
                    ),
                ),
            );
        }
        if let Some(fault) = declin_fault {
            return Err(
                NyxError::LoadingError(
                    Self::fault_text(name.as_str(), "declin", declin.as_str(), fault.as_str()),
                ),
            );
        }
        if let Some(fault) = w_fault {
            return Err(
                NyxError::LoadingError(
                    Self::fault_text(name.as_str(), "w", w.as_str(), fault.as_str()),
                ),
            );
        }
        let unit = match &angle_unit {
            Some(text) => match angle_unit_from_str(text.as_str()) {
                Some(unit) => unit,
                None => {
                    return Err(NyxError::LoadingError("unknown angle unit".to_string()));
                },
            },
            None => AngleUnit::Degrees,
        };
        let src_frame_name = match &inherit {
            Some(src_frame_name) => src_frame_name,
            None => {
                return Ok(false);
            },
        };
        let src_frame = match self.try_frame(src_frame_name.as_str()) {
            Ok(src_frame) => src_frame,
            Err(e) => {
                return Err(e);
            },
        };
        let mut fpath = src_frame.frame_path();
        let epath = src_frame.ephem_path();
        let children_len = match self.frame_root.get(fpath.as_slice()) {
            Some(node) => node.children.len(),
            None => {
                return Err(NyxError::LoadingError("cannot place a frame there".to_string()));
            },
        };
        if epath.len() == 0 || fpath.len() >= 3 {
            return Err(NyxError::LoadingError("cannot place a frame there".to_string()));
        }
        let ghost place = fpath@;
        fpath.push(children_len);
        let frame_slots = match PathSlots::from_path(fpath.as_slice()) {
            Some(slots) => slots,
            None => {
                proof {
                    assert(false);
                }
                return Err(NyxError::LoadingError("cannot place a frame there".to_string()));
            },
        };
        let ephem_slots = match PathSlots::from_path(epath.as_slice()) {
            Some(slots) => slots,
            None => {
                proof {
                    assert(false);
                }
                return Err(NyxError::LoadingError("cannot place a frame there".to_string()));
            },
        };
        proof {
            assert(ephem_slots == Self::packed_slots(epath@));
            assert(frame_slots == Self::packed_slots(fpath@));
        }
        let mut new_frame = src_frame;
        new_frame.set_paths(ephem_slots, frame_slots);
        let frame_name = string_of(
            trim(underscores_to_spaces(chars_of(name.as_str()).as_slice()).as_slice()).as_slice(),
        );
        let fnode = FrameTree {
            name: frame_name,
            frame: new_frame,
            parent_rotation: Some(
                Euler3AxisDt { right_asc, declin, w, context, angle_unit: unit },
            ),
            children: Vec::new(),
        };
        fpath.pop();
        assert(fpath@ =~= place);
        assert(Self::made_for(
            fnode,
            definition@,
            trimmed(spaced(definition@.name)),
            new_frame,
            unit,
        ));
        let ghost added = fnode;
        self.frame_root.push_child_at(fpath.as_slice(), fnode);
        proof {
            let parent = old(self).spec_frame(definition@.inherit->0)->0;
            assert(parent == src_frame);
            assert(new_frame == parent.with_paths(
                Self::packed_slots(parent.ephem_slots()@),
                Self::packed_slots(
                    place.push(old(self).frame_root.node_at(place)->0.children@.len() as usize),
                ),
            ));
            assert(old(self).frame_root.child_added(self.frame_root, place, added));
            lemma_child_added_node(old(self).frame_root, self.frame_root, place, added);
            lemma_named_is_found(
                self.frame_root,
                place.push(old(self).frame_root.node_at(place)->0.children@.len() as usize),
            );
            lemma_child_added_keeps(old(self).frame_root, self.frame_root, place, added);
            if old(self).wf() {
                lemma_child_added_wf(*old(self), *self, place, added);
            }
            assert(faults.right_asc is None && faults.declin is None && faults.w is None);
            assert(unit_of(definition@.rotation) == Some(unit));
            assert(definition@.inherit is Some);
            assert(old(self).frame_root.node_at(place) is Some);
            assert(old(self).verdict(definition@, faults@) == Verdict::Added {
                parent: place,
                name: trimmed(spaced(definition@.name)),
                frame: new_frame,
                angle_unit: unit,
            });
            assert(Self::made_for(
                added,
                definition@,
                trimmed(spaced(definition@.name)),
                new_frame,
                unit,
            ));
        }
        Ok(true)
    }

    /// Builds the message of the error for an expression that is not well
    /// formed.
    fn fault_text(name: &str, field: &str, expression: &str, fault: &str) -> (msg: String)
        ensures
            msg@ == fault_message(name@, field@, expression@, fault@),
    {
        String::from_str("[frame.").concat(name).concat("] - could not parse ").concat(
            field,
        ).concat(" `").concat(expression).concat("` - are there any special characters? ").concat(
            fault,
        )
    }

    /// Adds the frame that `definition` defines, given what is wrong with the
    /// expressions of its rotation. Returns whether a frame was added.
    ///
    /// The new frame has the body and the physical parameters of the frame
    /// that it inherits from, and becomes the last child of that frame. An
    /// entry that inherits from nothing is passed over.
    ///
    /// Fails with `LoadingError` when an expression is not well formed, when
    /// the unit of angles is unknown, and when the frame inherited from is
    /// the root, lies three levels deep or records a place that does not
    /// exist; with `ObjectNotFound` when the frame inherited from is unknown.
    /// Nothing changes when it fails.
    pub fn append_frame(&mut self, definition: FrameSerde, faults: ExpressionFaults) -> (r: Result<
        bool,
        NyxError,
    >)
        ensures
            old(self).appended(*final(self), definition@, faults@, r),
    {
        self.place_frame(definition, faults)
    }

    /// `after` is what this becomes, and `r` what is returned, when the frame
    /// of `definition` is added and `faults` is wrong with its expressions.
    pub open spec fn appended(
        self,
        after: Cosm,
        definition: FrameSerdeModel,
        faults: FaultsModel,
        r: Result<bool, NyxError>,
    ) -> bool {
        &&& after.xb == self.xb
        &&& after.ephem2frame_map == self.ephem2frame_map
        &&& self.frame_root.kept_in(after.frame_root)
        &&& (self.wf() ==> after.wf())
        &&& (!(self.verdict(definition, faults) is Added) ==> after.frame_root == self.frame_root)
        &&& match self.verdict(definition, faults) {
            Verdict::Fault { field, expression, fault } => r matches Err(
                NyxError::LoadingError(msg),
            ) && msg@ == fault_message(definition.name, field, expression, fault),
            Verdict::UnknownUnit => r matches Err(NyxError::LoadingError(msg)) && msg@
                == "unknown angle unit"@,
            Verdict::Skipped => r == Ok::<bool, NyxError>(false),
            Verdict::UnknownParent { name } => r matches Err(NyxError::ObjectNotFound(n)) && n@
                == name,
            Verdict::Misplaced => r matches Err(NyxError::LoadingError(msg)) && msg@
                == "cannot place a frame there"@,
            Verdict::Added { parent, name, frame, angle_unit } => {
                let index = self.frame_root.node_at(parent)->0.children@.len() as usize;
                let child = after.frame_root.node_at(parent.push(index));
                &&& r == Ok::<bool, NyxError>(true)
                &&& child is Some
                &&& Self::made_for(child->0, definition, name, frame, angle_unit)
                &&& self.frame_root.child_added(after.frame_root, parent, child->0)
                &&& after.frame_root.seek(name) is Some
            },
        }
    }

    /// Adds the frame that `definition` defines: its expressions are parsed,
    /// and the frame is added as `append_frame` says.
    pub fn append_definition(&mut self, definition: FrameSerde) -> (r: Result<bool, NyxError>)
        ensures
            old(self).appended(*final(self), definition@, faults_of(definition@.rotation), r),
    {
        let faults = rotation_faults(&definition.rotation);
        self.append_frame(definition, faults)
    }

    /// The name under which the frame of a definition is stored: the key of
    /// the entry with spaces for underscores, trimmed.
    pub open spec fn stored_name(definition: FrameSerdeModel) -> Seq<char> {
        trimmed(spaced(definition.name))
    }

    /// `after` is what this becomes when the frames of the first `k`
    /// definitions are added one after the other, each with success.
    pub open spec fn appended_upto(
        self,
        after: Cosm,
        definitions: Seq<FrameSerdeModel>,
        k: nat,
    ) -> bool
        decreases k,
    {
        if k == 0 {
            after == self
        } else {
            &&& k <= definitions.len()
            &&& exists|mid: Cosm, added: bool|
                self.appended_upto(mid, definitions, (k - 1) as nat) && #[trigger] mid.appended(
                    after,
                    definitions[k - 1],
                    faults_of(definitions[k - 1].rotation),
                    Ok(added),
                )
        }
    }

    /// `after` is what this becomes, and `r` what is returned, when the frames
    /// of `definitions` are added one after the other until one fails. When
    /// all goes well, every entry that inherits from a frame can be found
    /// under its name. When one fails, those before it were added and it
    /// failed as `appended` says.
    pub open spec fn appended_all(
        self,
        after: Cosm,
        definitions: Seq<FrameSerdeModel>,
        r: Result<(), NyxError>,
    ) -> bool {
        &&& after.xb == self.xb
        &&& after.ephem2frame_map == self.ephem2frame_map
        &&& self.frame_root.kept_in(after.frame_root)
        &&& (self.wf() ==> after.wf())
        &&& match r {
            Ok(_) => {
                &&& self.appended_upto(after, definitions, definitions.len())
                &&& forall|i: int|
                    0 <= i < definitions.len() && (#[trigger] definitions[i]).inherit is Some
                        ==> after.frame_root.seek(Self::stored_name(definitions[i])) is Some
            },
            Err(e) => exists|k: nat, mid: Cosm|
                k < definitions.len() && #[trigger] self.appended_upto(mid, definitions, k)
                    && mid.appended(
                    after,
                    definitions[k as int],
                    faults_of(definitions[k as int].rotation),
                    Err(e),
                ),
        }
    }

    /// Adds the frames that `definitions` define, in order: each entry is
    /// added as `append_definition` adds it. Stops at the first entry that
    /// fails, with its error; the entries before it stay added. Every frame
    /// that was there stays where and what it was.
    pub fn append_frame_definitions(&mut self, definitions: Vec<FrameSerde>) -> (r: Result<
        (),
        NyxError,
    >)
        ensures
            old(self).appended_all(*final(self), definition_views(definitions@), r),
            definitions@.len() == 0 ==> r is Ok && final(self).frame_root == old(self).frame_root,
            r matches Err(e) ==> e is LoadingError || e is ObjectNotFound,
    {
        let ghost given = definition_views(definitions@);
        let ghost count = definitions@.len();
        let mut pending = definitions;
        let mut reversed: Vec<FrameSerde> = Vec::new();
        while pending.len() > 0
            invariant
                *self == *old(self),
                given == definition_views(definitions@),
                count == given.len(),
                pending@.len() + reversed@.len() == count,
                forall|j: int|
                    0 <= j < reversed@.len() ==> (#[trigger] reversed@[j])@ == given[count - 1 - j],
                forall|j: int| 0 <= j < pending@.len() ==> (#[trigger] pending@[j])@ == given[j],
            decreases pending@.len(),
        {
            match pending.pop() {
                Some(definition) => {
                    reversed.push(definition);
                },
                None => {},
            }
        }
        proof {
            lemma_kept_reflexive(self.frame_root);
        }
        while reversed.len() > 0
            invariant
                self.xb == old(self).xb,
                self.ephem2frame_map == old(self).ephem2frame_map,
                old(self).frame_root.kept_in(self.frame_root),
                old(self).wf() ==> self.wf(),
                old(self).appended_upto(*self, given, (count - reversed@.len()) as nat),
                given == definition_views(definitions@),
                count == given.len(),
                count == definitions@.len(),
                reversed@.len() <= count,
                forall|j: int|
                    0 <= j < reversed@.len() ==> (#[trigger] reversed@[j])@ == given[count - 1 - j],
                count == 0 ==> self.frame_root == old(self).frame_root,
                forall|i: int|
                    0 <= i < count - reversed@.len() && (#[trigger] given[i]).inherit is Some
                        ==> self.frame_root.seek(Self::stored_name(given[i])) is Some,
            decreases reversed@.len(),
        {
            let ghost before = self.frame_root;
            let ghost start = *self;
            let ghost k = count - reversed@.len();
            match reversed.pop() {
                Some(definition) => {
                    assert(definition@ == given[k]);
                    let outcome = self.append_definition(definition);
                    proof {
                        assert(start.appended(
                            *self,
                            given[k],
                            faults_of(given[k].rotation),
                            outcome,
                        ));
                        if let Ok(added) = outcome {
                            lemma_appended_step(*old(self), start, *self, given, k as nat, added);
                        }
                        lemma_kept_transitive(old(self).frame_root, before, self.frame_root);
                        assert forall|i: int|
                            0 <= i < k && (#[trigger] given[i]).inherit is Some implies self.frame_root.seek(
                            Self::stored_name(given[i]),
                        ) is Some by {
                            lemma_seek_kept(before, self.frame_root, Self::stored_name(given[i]));
                        }
                    }
                    match outcome {
                        Ok(_) => {
                            assert(given[k].inherit is Some ==> self.frame_root.seek(
                                Self::stored_name(given[k]),
                            ) is Some);
                        },
                        Err(e) => {
                            return Err(e);
                        },
                    }
                },
                None => {},
            }
        }
        Ok(())
    }

    /// Adds the frames of a definition table, given as TOML text: the
    /// definitions are read as `frame_definitions_from_toml` reads them and
    /// added as `append_frame_definitions` adds them.
    ///
    /// Fails with `LoadingError` when the text is no definition table, and
    /// then nothing changes; and as `append_frame` does for the first entry
    /// that fails.
    pub fn append_frames(&mut self, toml_content: &str) -> (r: Result<(), NyxError>)
        ensures
            match definitions_of(toml_content@) {
                Err(msg) => r matches Err(NyxError::LoadingError(m)) && m@ == msg && *final(self)
                    == *old(self),
                Ok(definitions) => old(self).appended_all(*final(self), definitions, r),
            },
            final(self).xb == old(self).xb,
            final(self).ephem2frame_map == old(self).ephem2frame_map,
            old(self).frame_root.kept_in(final(self).frame_root),
            old(self).wf() ==> final(self).wf(),
            r matches Err(e) ==> e is LoadingError || e is ObjectNotFound,
    {
        match frame_definitions_from_toml(toml_content) {
            Ok(definitions) => self.append_frame_definitions(definitions),
            Err(e) => {
                proof {
                    lemma_kept_reflexive(self.frame_root);
                }
                Err(e)
            },
        }
    }

    /// `r` is what comes of building the frames of the store `xb` and then
    /// adding those of the definition table `text`.
    pub open spec fn built(xb: Xb, text: Seq<char>, r: Result<Cosm, NyxError>) -> bool {
        if xb.ephemeris_root is None {
            r matches Err(NyxError::ObjectNotFound(m)) && m@ == "no ephemeris root"@
        } else {
            match definitions_of(text) {
                Err(msg) => r matches Err(NyxError::LoadingError(m)) && m@ == msg,
                Ok(definitions) => exists|base: Cosm, after: Cosm|
                    base.built_from(xb) && #[trigger] base.appended_all(
                        after,
                        definitions,
                        Self::without_frames(r),
                    ) && (r matches Ok(cosm) ==> cosm == after),
            }
        }
    }

    /// The outcome of a construction without what was constructed.
    pub open spec fn without_frames(r: Result<Cosm, NyxError>) -> Result<(), NyxError> {
        match r {
            Ok(_) => Ok(()),
            Err(e) => Err(e),
        }
    }

    /// Builds the frames of a store and of a table of body-fixed frames: the
    /// root frame of the solar-system barycenter, one frame for each body of
    /// the store that gets one, as `try_from_bodies` makes them, and then the
    /// frames of the table, given as TOML text, as `append_frames` adds them.
    ///
    /// Fails with `ObjectNotFound` when the store has no root, and as
    /// `append_frames` does for the table.
    pub fn try_from_xb(xb: Xb, iau_toml: &str) -> (r: Result<Cosm, NyxError>)
        ensures
            Self::built(xb, iau_toml@, r),
            r matches Ok(cosm) ==> cosm.wf() && cosm.xb == xb,
    {
        let mut cosm = match Self::try_from_bodies(xb) {
            Ok(cosm) => cosm,
            Err(e) => {
                return Err(e);
            },
        };
        let ghost base = cosm;
        let loaded = cosm.load_iau_frames(iau_toml);
        let ghost outcome = loaded;
        let ghost after = cosm;
        let r = match loaded {
            Ok(_) => Ok(cosm),
            Err(e) => Err(e),
        };
        proof {
            if let Ok(unit) = outcome {
                assert(unit == ());
            }
            assert(Self::without_frames(r) == outcome);
            if let Ok(definitions) = definitions_of(iau_toml@) {
                assert(base.built_from(xb) && base.appended_all(
                    after,
                    definitions,
                    Self::without_frames(r),
                ) && (r matches Ok(c) ==> c == after));
            }
        }
        r
    }

    /// Adds the frames of the table of body-fixed frames, given as TOML text,
    /// as `append_frames` does.
    pub fn load_iau_frames(&mut self, iau_toml: &str) -> (r: Result<(), NyxError>)
        ensures
            match definitions_of(iau_toml@) {
                Err(msg) => r matches Err(NyxError::LoadingError(m)) && m@ == msg && *final(self)
                    == *old(self),
                Ok(definitions) => old(self).appended_all(*final(self), definitions, r),
            },
            final(self).xb == old(self).xb,
            final(self).ephem2frame_map == old(self).ephem2frame_map,
            old(self).frame_root.kept_in(final(self).frame_root),
            old(self).wf() ==> final(self).wf(),
            r matches Err(e) ==> e is LoadingError || e is ObjectNotFound,
    {
        self.append_frames(iau_toml)
    }
}

/// One more definition added with success extends what was added before.
pub proof fn lemma_appended_step(
    first: Cosm,
    mid: Cosm,
    after: Cosm,
    definitions: Seq<FrameSerdeModel>,
    k: nat,
    added: bool,
)
    requires
        k < definitions.len(),
        first.appended_upto(mid, definitions, k),
        mid.appended(
            after,
            definitions[k as int],
            faults_of(definitions[k as int].rotation),
            Ok(added),
        ),
    ensures
        first.appended_upto(after, definitions, k + 1),
{
}

/// Every node of a tree is kept in the tree itself.
pub proof fn lemma_kept_reflexive(tree: FrameTree)
    ensures
        tree.kept_in(tree),
{
}

/// A node with a name is found when that name is sought.
pub proof fn lemma_named_is_found(tree: FrameTree, path: Seq<usize>)
    requires
        tree.node_at(path) is Some,
    ensures
        tree.seek(tree.node_at(path)->0.name@) is Some,
{
    let name = tree.node_at(path)->0.name@;
    if tree.seek(name) is None {
        lemma_seek_misses(tree, name, path);
    }
}

/// A name that was found is still found after the tree has grown.
pub proof fn lemma_seek_kept(before: FrameTree, after: FrameTree, name: Seq<char>)
    requires
        before.kept_in(after),
        before.seek(name) is Some,
    ensures
        after.seek(name) is Some,
{
    lemma_seek_finds(before, name);
    let path = before.seek(name)->0;
    assert(FrameTree::same_node(before.node_at(path), after.node_at(path)));
    lemma_named_is_found(after, path);
}

} // verus!
