use vstd::prelude::*;

verus! {

/// Raw bytes of call data.
#[derive(Clone, Debug)]
pub struct Bytes(pub Vec<u8>);

impl View for Bytes {
    type V = Seq<u8>;

    open spec fn view(&self) -> Seq<u8> {
        self.0@
    }
}

impl PartialEq for Bytes {
    fn eq(&self, other: &Self) -> (r: bool) {
        let n = self.0.len();
        if n != other.0.len() {
            return false;
        }
        let mut i: usize = 0;
        while i < n
            invariant
                n == self.0.len(),
                n == other.0.len(),
                i <= n,
                forall|j: int| 0 <= j < i ==> self.0@[j] == other.0@[j],
            decreases n - i,
        {
            if self.0[i] != other.0[i] {
                return false;
            }
            i = i + 1;
        }
        assert(self.0@ =~= other.0@);
        true
    }
}

impl vstd::std_specs::cmp::PartialEqSpecImpl for Bytes {
    open spec fn obeys_eq_spec() -> bool {
        true
    }

    open spec fn eq_spec(&self, other: &Self) -> bool {
        self@ == other@
    }
}

impl Eq for Bytes {

}

impl From<Vec<u8>> for Bytes {
    fn from(bytes: Vec<u8>) -> (r: Bytes) {
        Bytes(bytes)
    }
}

impl vstd::std_specs::convert::FromSpecImpl<Vec<u8>> for Bytes {
    open spec fn obeys_from_spec() -> bool {
        true
    }

    open spec fn from_spec(v: Vec<u8>) -> Bytes {
        Bytes(v)
    }
}

/// The error for a call that sets both `data` and `input` to different bytes.
#[derive(Clone, Copy, Debug, PartialEq, Eq, Structural)]
#[non_exhaustive]
pub struct CallInputError;

impl CallInputError {
    /// The message that the error is shown with.
    pub fn message(&self) -> (r: &'static str)
        ensures
            r@
                == "both \"data\" and \"input\" are set and not equal. Please use \"input\" to pass transaction call data"@,
    {
        "both \"data\" and \"input\" are set and not equal. Please use \"input\" to pass transaction call data"
    }
}

impl Default for CallInputError {
    fn default() -> (r: CallInputError)
        ensures
            r == CallInputError,
    {
        CallInputError
    }
}

/// The data of a call, which may come as `input` or, for backwards compatibility, as `data`.
#[derive(Clone, Debug)]
pub struct CallInput {
    /// Transaction data.
    pub input: Option<Bytes>,
    /// Transaction data; the same as `input`, kept for backwards compatibility.
    pub data: Option<Bytes>,
}

impl PartialEq for CallInput {
    fn eq(&self, other: &Self) -> (r: bool) {
        let same_input = match (&self.input, &other.input) {
            (Some(a), Some(b)) => a == b,
            (None, None) => true,
            _ => false,
        };
        let same_data = match (&self.data, &other.data) {
            (Some(a), Some(b)) => a == b,
            (None, None) => true,
            _ => false,
        };
        same_input && same_data
    }
}

impl vstd::std_specs::cmp::PartialEqSpecImpl for CallInput {
    open spec fn obeys_eq_spec() -> bool {
        true
    }

    open spec fn eq_spec(&self, other: &Self) -> bool {
        bytes_view(self.input) == bytes_view(other.input) && bytes_view(self.data) == bytes_view(
            other.data,
        )
    }
}

impl Eq for CallInput {

}

impl Default for CallInput {
    fn default() -> (r: CallInput)
        ensures
            r.input is None,
            r.data is None,
    {
        CallInput { input: None, data: None }
    }
}

/// The field of a call input that its data comes from.
#[derive(Clone, Copy, Debug, PartialEq, Eq, Structural)]
pub enum InputField {
    /// The `input` field.
    Input,
    /// The `data` field, kept for backwards compatibility.
    Data,
}

/// The data that a call carries, by the views of its two fields: `None` where both are set
/// and differ, else `Some` of the one that is set (`input` first), or of nothing.
pub open spec fn unique_input_of(input: Option<Seq<u8>>, data: Option<Seq<u8>>) -> Option<
    Option<Seq<u8>>,
> {
    match (input, data) {
        (Some(i), Some(d)) => if i == d {
            Some(Some(i))
        } else {
            None
        },
        (Some(i), None) => Some(Some(i)),
        (None, Some(d)) => Some(Some(d)),
        (None, None) => Some(None),
    }
}

/// The view of an optional `Bytes`.
pub open spec fn bytes_view(b: Option<Bytes>) -> Option<Seq<u8>> {
    match b {
        Some(b) => Some(b@),
        None => None,
    }
}

/// The view of an optional reference to `Bytes`.
pub open spec fn bytes_ref_view(b: Option<&Bytes>) -> Option<Seq<u8>> {
    match b {
        Some(b) => Some(b@),
        None => None,
    }
}

impl CallInput {
    /// Consumes the call input and returns its data; an error where both `data` and
    /// `input` are set and not equal.
    pub fn try_into_unique_input(self) -> (r: Result<Option<Bytes>, CallInputError>)
        ensures
            r is Err <==> unique_input_of(bytes_view(self.input), bytes_view(self.data)) is None,
            r matches Ok(v) ==> Some(bytes_view(v)) == unique_input_of(
                bytes_view(self.input),
                bytes_view(self.data),
            ),
    {
        let CallInput { input, data } = self;
        match (input, data) {
            (Some(input), Some(data)) => {
                if input == data {
                    Ok(Some(input))
                } else {
                    Err(CallInputError::default())
                }
            },
            (Some(input), None) => Ok(Some(input)),
            (None, Some(data)) => Ok(Some(data)),
            (None, None) => Ok(None),
        }
    }

    /// Which field the data of the call input comes from: `input` where it is set, else
    /// `data` where that is set, else none; an error where both are set and not equal.
    pub fn unique_input_field(&self) -> (r: Result<Option<InputField>, CallInputError>)
        ensures
            r is Err <==> unique_input_of(bytes_view(self.input), bytes_view(self.data)) is None,
            r == Ok::<_, CallInputError>(Some(InputField::Input)) <==> (self.input is Some && (
            self.data is None || bytes_view(self.data) == bytes_view(self.input))),
            r == Ok::<_, CallInputError>(Some(InputField::Data)) <==> (self.input is None
                && self.data is Some),
            r == Ok::<_, CallInputError>(None::<InputField>) <==> (self.input is None
                && self.data is None),
    {
        match (&self.input, &self.data) {
            (Some(input), Some(data)) => {
                if input == data {
                    Ok(Some(InputField::Input))
                } else {
                    Err(CallInputError::default())
                }
            },
            (Some(_), None) => Ok(Some(InputField::Input)),
            (None, Some(_)) => Ok(Some(InputField::Data)),
            (None, None) => Ok(None),
        }
    }

    /// Returns the data of the call input; an error where both `data` and `input` are set
    /// and not equal.
    pub fn unique_input(&self) -> (r: Result<Option<&Bytes>, CallInputError>)
        ensures
            r is Err <==> unique_input_of(bytes_view(self.input), bytes_view(self.data)) is None,
            r matches Ok(v) ==> Some(bytes_ref_view(v)) == unique_input_of(
                bytes_view(self.input),
                bytes_view(self.data),
            ),
    {
        match self.unique_input_field() {
            Err(e) => Err(e),
            Ok(Some(InputField::Input)) => Ok(self.input.as_ref()),
            Ok(Some(InputField::Data)) => Ok(self.data.as_ref()),
            Ok(None) => Ok(None),
        }
    }
}

impl From<Bytes> for CallInput {
    fn from(input: Bytes) -> (r: CallInput) {
        CallInput { input: Some(input), data: None }
    }
}

impl vstd::std_specs::convert::FromSpecImpl<Bytes> for CallInput {
    open spec fn obeys_from_spec() -> bool {
        true
    }

    open spec fn from_spec(v: Bytes) -> CallInput {
        CallInput { input: Some(v), data: None }
    }
}

impl From<Option<Bytes>> for CallInput {
    fn from(input: Option<Bytes>) -> (r: CallInput) {
        CallInput { input, data: None }
    }
}

impl vstd::std_specs::convert::FromSpecImpl<Option<Bytes>> for CallInput {
    open spec fn obeys_from_spec() -> bool {
        true
    }

    open spec fn from_spec(v: Option<Bytes>) -> CallInput {
        CallInput { input: v, data: None }
    }
}

} // verus!
