use vstd::prelude::*;

verus! {

/// The kinds of error that an action can end in.
#[derive(Debug, Clone, Copy, PartialEq, Eq, Structural)]
pub enum ActionErrorType {
    KeysUnallowed,
    ActionUnrecognized,
    InvalidInput,
    InvalidQueryInput,
    WrongInputType,
    WrongDateFormat,
    WrongDateTimeFormat,
    WrongEnumChoice,
    WrongJSONFormat,
    ValueRequired,
    ValidationError,
    UniqueValueDuplicated,
    UnknownDatabaseWriteError,
    UnknownDatabaseFindError,
    UnknownDatabaseDeleteError,
    NotFound,
    InternalServerError,
    MissingActionName,
    UndefinedAction,
    UnallowedAction,
    MissingInputSection,
    ObjectNotFound,
    ObjectNotSaved,
}

/// The HTTP status code that belongs to each kind of error.
pub open spec fn status_code(t: ActionErrorType) -> u16 {
    match t {
        ActionErrorType::KeysUnallowed => 400,
        ActionErrorType::ActionUnrecognized => 400,
        ActionErrorType::InvalidInput => 400,
        ActionErrorType::InvalidQueryInput => 400,
        ActionErrorType::WrongInputType => 400,
        ActionErrorType::WrongDateFormat => 400,
        ActionErrorType::WrongDateTimeFormat => 400,
        ActionErrorType::WrongEnumChoice => 400,
        ActionErrorType::WrongJSONFormat => 400,
        ActionErrorType::ValueRequired => 400,
        ActionErrorType::ValidationError => 400,
        ActionErrorType::UniqueValueDuplicated => 400,
        ActionErrorType::UnknownDatabaseWriteError => 500,
        ActionErrorType::UnknownDatabaseFindError => 500,
        ActionErrorType::UnknownDatabaseDeleteError => 500,
        ActionErrorType::NotFound => 404,
        ActionErrorType::InternalServerError => 500,
        ActionErrorType::MissingActionName => 400,
        ActionErrorType::UndefinedAction => 400,
        ActionErrorType::UnallowedAction => 400,
        ActionErrorType::MissingInputSection => 400,
        ActionErrorType::ObjectNotFound => 404,
        ActionErrorType::ObjectNotSaved => 400,
    }
}

impl ActionErrorType {
    /// The HTTP status code of this kind of error.
    pub fn code(&self) -> (r: u16)
        ensures
            r == status_code(*self),
    {
        match self {
            ActionErrorType::KeysUnallowed => 400,
            ActionErrorType::ActionUnrecognized => 400,
            ActionErrorType::InvalidInput => 400,
            ActionErrorType::InvalidQueryInput => 400,
            ActionErrorType::WrongInputType => 400,
            ActionErrorType::WrongDateFormat => 400,
            ActionErrorType::WrongDateTimeFormat => 400,
            ActionErrorType::WrongEnumChoice => 400,
            ActionErrorType::WrongJSONFormat => 400,
            ActionErrorType::ValueRequired => 400,
            ActionErrorType::ValidationError => 400,
            ActionErrorType::UniqueValueDuplicated => 400,
            ActionErrorType::UnknownDatabaseWriteError => 500,
            ActionErrorType::UnknownDatabaseFindError => 500,
            ActionErrorType::UnknownDatabaseDeleteError => 500,
            ActionErrorType::NotFound => 404,
            ActionErrorType::InternalServerError => 500,
            ActionErrorType::MissingActionName => 400,
            ActionErrorType::UndefinedAction => 400,
            ActionErrorType::UnallowedAction => 400,
            ActionErrorType::MissingInputSection => 400,
            ActionErrorType::ObjectNotFound => 404,
            ActionErrorType::ObjectNotSaved => 400,
        }
    }
}

/// An error with its kind, a message, and, where it applies, the offending
/// keys with a reason for each.
#[derive(Debug, Clone)]
pub struct ActionError {
    pub error_type: ActionErrorType,
    pub message: String,
    pub errors: Option<Vec<(String, String)>>,
}

/// The error is of the given kind and names exactly one key, `key`.
pub open spec fn names_one_key(e: ActionError, t: ActionErrorType, key: Seq<char>) -> bool {
    &&& e.error_type == t
    &&& e.errors is Some
    &&& e.errors->Some_0@.len() == 1
    &&& e.errors->Some_0@[0].0@ == key
}

impl ActionError {
    fn plain(error_type: ActionErrorType, message: &str) -> (r: Self)
        ensures
            r.error_type == error_type,
            r.message@ == message@,
            r.errors is None,
    {
        ActionError { error_type, message: message.to_string(), errors: None }
    }

    fn with_key(error_type: ActionErrorType, message: &str, key: &str, reason: String) -> (r: Self)
        ensures
            names_one_key(r, error_type, key@),
            r.errors->Some_0@[0].1@ == reason@,
            r.message@ == message@,
    {
        let mut errors: Vec<(String, String)> = Vec::new();
        errors.push((key.to_string(), reason));
        ActionError { error_type, message: message.to_string(), errors: Some(errors) }
    }

    pub fn keys_unallowed() -> (r: Self)
        ensures
            r.error_type == ActionErrorType::KeysUnallowed,
            r.message@ == "Unallowed keys detected."@,
            r.errors is None,
    {
        Self::plain(ActionErrorType::KeysUnallowed, "Unallowed keys detected.")
    }

    pub fn action_unrecognized() -> (r: Self)
        ensures
            r.error_type == ActionErrorType::ActionUnrecognized,
            r.message@ == "This action is unrecognized."@,
            r.errors is None,
    {
        Self::plain(ActionErrorType::ActionUnrecognized, "This action is unrecognized.")
    }

    pub fn wrong_input_type() -> (r: Self)
        ensures
            r.error_type == ActionErrorType::WrongInputType,
            r.message@ == "Input type is unexpected."@,
            r.errors is None,
    {
        Self::plain(ActionErrorType::WrongInputType, "Input type is unexpected.")
    }

    pub fn wrong_date_format() -> (r: Self)
        ensures
            r.error_type == ActionErrorType::WrongDateFormat,
            r.message@ == "Date format is unexpected."@,
            r.errors is None,
    {
        Self::plain(ActionErrorType::WrongDateFormat, "Date format is unexpected.")
    }

    pub fn wrong_datetime_format() -> (r: Self)
        ensures
            r.error_type == ActionErrorType::WrongDateTimeFormat,
            r.message@ == "Datetime format is unexpected."@,
            r.errors is None,
    {
        Self::plain(ActionErrorType::WrongDateTimeFormat, "Datetime format is unexpected.")
    }

    pub fn wrong_enum_choice() -> (r: Self)
        ensures
            r.error_type == ActionErrorType::WrongEnumChoice,
            r.message@ == "Enum value is unexpected."@,
            r.errors is None,
    {
        Self::plain(ActionErrorType::WrongEnumChoice, "Enum value is unexpected.")
    }

    pub fn value_required() -> (r: Self)
        ensures
            r.error_type == ActionErrorType::ValueRequired,
            r.message@ == "Value is required."@,
            r.errors is None,
    {
        Self::plain(ActionErrorType::ValueRequired, "Value is required.")
    }

    pub fn unknown_database_write_error() -> (r: Self)
        ensures
            r.error_type == ActionErrorType::UnknownDatabaseWriteError,
            r.message@ == "An unknown database write error occurred."@,
            r.errors is None,
    {
        Self::plain(ActionErrorType::UnknownDatabaseWriteError, "An unknown database write error occurred.")
    }

    pub fn unknown_database_find_error() -> (r: Self)
        ensures
            r.error_type == ActionErrorType::UnknownDatabaseFindError,
            r.message@ == "An unknown database find error occurred."@,
            r.errors is None,
    {
        Self::plain(ActionErrorType::UnknownDatabaseFindError, "An unknown database find error occurred.")
    }

    pub fn unknown_database_delete_error() -> (r: Self)
        ensures
            r.error_type == ActionErrorType::UnknownDatabaseDeleteError,
            r.message@ == "An unknown database delete error occurred."@,
            r.errors is None,
    {
        Self::plain(ActionErrorType::UnknownDatabaseDeleteError, "An unknown database delete error occurred.")
    }

    pub fn not_found() -> (r: Self)
        ensures
            r.error_type == ActionErrorType::NotFound,
            r.message@ == "Not found."@,
            r.errors is None,
    {
        Self::plain(ActionErrorType::NotFound, "Not found.")
    }

    pub fn wrong_json_format() -> (r: Self)
        ensures
            r.error_type == ActionErrorType::WrongJSONFormat,
            r.message@ == "Wrong JSON format."@,
            r.errors is None,
    {
        Self::plain(ActionErrorType::WrongJSONFormat, "Wrong JSON format.")
    }

    pub fn missing_action_name() -> (r: Self)
        ensures
            r.error_type == ActionErrorType::MissingActionName,
            r.message@ == "Missing action name."@,
            r.errors is None,
    {
        Self::plain(ActionErrorType::MissingActionName, "Missing action name.")
    }

    pub fn undefined_action() -> (r: Self)
        ensures
            r.error_type == ActionErrorType::UndefinedAction,
            r.message@ == "Undefined action."@,
            r.errors is None,
    {
        Self::plain(ActionErrorType::UndefinedAction, "Undefined action.")
    }

    pub fn unallowed_action() -> (r: Self)
        ensures
            r.error_type == ActionErrorType::UnallowedAction,
            r.message@ == "Unallowed action."@,
            r.errors is None,
    {
        Self::plain(ActionErrorType::UnallowedAction, "Unallowed action.")
    }

    pub fn missing_input_section() -> (r: Self)
        ensures
            r.error_type == ActionErrorType::MissingInputSection,
            r.message@ == "Input incomplete."@,
            r.errors is None,
    {
        Self::plain(ActionErrorType::MissingInputSection, "Input incomplete.")
    }

    pub fn object_not_found() -> (r: Self)
        ensures
            r.error_type == ActionErrorType::ObjectNotFound,
            r.message@ == "The requested object is not exist."@,
            r.errors is None,
    {
        Self::plain(ActionErrorType::ObjectNotFound, "The requested object is not exist.")
    }

    pub fn object_is_not_saved() -> (r: Self)
        ensures
            r.error_type == ActionErrorType::ObjectNotSaved,
            r.message@ == "This object is not saved thus can't be deleted."@,
            r.errors is None,
    {
        Self::plain(ActionErrorType::ObjectNotSaved, "This object is not saved thus can't be deleted.")
    }

    /// An invalid value under `key`, for the given reason.
    pub fn invalid_input(key: &str, reason: String) -> (r: Self)
        ensures
            names_one_key(r, ActionErrorType::InvalidInput, key@),
            r.errors->Some_0@[0].1@ == reason@,
            r.message@ == "Invalid value found in input values."@,
    {
        Self::with_key(ActionErrorType::InvalidInput, "Invalid value found in input values.", key, reason)
    }

    /// A malformed finder: a bad `where` or `include`, or an unknown relation.
    pub fn invalid_query_input(reason: String) -> (r: Self)
        ensures
            r.error_type == ActionErrorType::InvalidQueryInput,
            r.message@ == reason@,
            r.errors is None,
    {
        ActionError { error_type: ActionErrorType::InvalidQueryInput, message: reason, errors: None }
    }

    /// A value that must be unique is already stored under `field`.
    pub fn unique_value_duplicated(field: &str) -> (r: Self)
        ensures
            names_one_key(r, ActionErrorType::UniqueValueDuplicated, field@),
            r.errors->Some_0@[0].1@ == "Unique value duplicated."@,
            r.message@ == "Input is not valid."@,
    {
        Self::with_key(
            ActionErrorType::UniqueValueDuplicated,
            "Input is not valid.",
            field,
            "Unique value duplicated.".to_string(),
        )
    }

    pub fn internal_server_error(reason: String) -> (r: Self)
        ensures
            r.error_type == ActionErrorType::InternalServerError,
            r.message@ == reason@,
            r.errors is None,
    {
        ActionError { error_type: ActionErrorType::InternalServerError, message: reason, errors: None }
    }
}

} // verus!
