//! The errors that a stream records and a server reports.

use vstd::prelude::*;

verus! {

/// An error in moving data to or from the device.
#[derive(Debug)]
pub enum IoError {
    /// A device call failed, in the words of the call.
    Unknown {
        /// What went wrong.
        description: String,
    },
    /// A write to a tensor that is not contiguous.
    UnsupportedStrides,
    /// An operation that this backend does not offer.
    UnsupportedIoOperation,
    /// The memory manager refused a request, in its own words.
    Memory {
        /// What went wrong.
        description: String,
    },
}

/// An error of the compute server.
#[derive(Debug)]
pub enum ServerError {
    /// Moving data failed.
    Io(IoError),
    /// Earlier work on the stream failed; the errors are those recorded so far.
    ServerUnhealthy {
        /// The recorded errors, oldest first.
        errors: Vec<ServerError>,
    },
}

/// What an [`IoError`] says.
pub enum IoErrorView {
    /// See [`IoError::Unknown`].
    Unknown {
        /// What went wrong.
        description: Seq<char>,
    },
    /// See [`IoError::UnsupportedStrides`].
    UnsupportedStrides,
    /// See [`IoError::UnsupportedIoOperation`].
    UnsupportedIoOperation,
    /// See [`IoError::Memory`].
    Memory {
        /// What went wrong.
        description: Seq<char>,
    },
}

/// What a [`ServerError`] says.
#[verifier::ext_equal]
pub enum ServerErrorView {
    /// See [`ServerError::Io`].
    Io(IoErrorView),
    /// See [`ServerError::ServerUnhealthy`].
    ServerUnhealthy {
        /// The recorded errors, oldest first.
        errors: Seq<ServerErrorView>,
    },
}

impl View for IoError {
    type V = IoErrorView;

    open spec fn view(&self) -> IoErrorView {
        match self {
            IoError::Unknown { description } => IoErrorView::Unknown { description: description@ },
            IoError::UnsupportedStrides => IoErrorView::UnsupportedStrides,
            IoError::UnsupportedIoOperation => IoErrorView::UnsupportedIoOperation,
            IoError::Memory { description } => IoErrorView::Memory { description: description@ },
        }
    }
}

impl ServerError {
    /// What the error says.
    pub open spec fn says(self) -> ServerErrorView
        decreases self,
    {
        match self {
            ServerError::Io(e) => ServerErrorView::Io(e@),
            ServerError::ServerUnhealthy { errors } => ServerErrorView::ServerUnhealthy {
                errors: Seq::new(
                    errors@.len(),
                    |i: int|
                        if 0 <= i < errors@.len() {
                            errors@[i].says()
                        } else {
                            arbitrary()
                        },
                ),
            },
        }
    }

    /// The error of a failed device call, in the words of the call.
    pub fn unknown(description: String) -> (r: Self)
        ensures
            r.says() == ServerErrorView::Io(IoErrorView::Unknown { description: description@ }),
    {
        ServerError::Io(IoError::Unknown { description })
    }

    /// A copy of the error.
    pub fn duplicate(&self) -> (r: Self)
        ensures
            r.says() == self.says(),
        decreases self,
    {
        match self {
            ServerError::Io(e) => ServerError::Io(e.duplicate()),
            ServerError::ServerUnhealthy { errors } => {
                let mut copies: Vec<ServerError> = Vec::new();
                let mut i: usize = 0;
                while i < errors.len()
                    invariant
                        i == copies@.len() <= errors@.len(),
                        *self == (ServerError::ServerUnhealthy { errors: *errors }),
                        forall|j: int| 0 <= j < i ==> copies@[j].says() == errors@[j].says(),
                    decreases errors@.len() - i,
                {
                    proof {
                        assert(decreases_to!(*self => self->errors));
                        assert(decreases_to!(self->errors => self->errors@));
                        assert(decreases_to!(errors@ => errors@[i as int]));
                    }
                    copies.push(errors[i].duplicate());
                    i += 1;
                }
                proof {
                    law_unhealthy_says_errors(copies);
                    law_unhealthy_says_errors(*errors);
                    assert(all_say(copies@) =~= all_say(errors@));
                }
                ServerError::ServerUnhealthy { errors: copies }
            },
        }
    }
}

impl IoError {
    /// A copy of the error.
    pub fn duplicate(&self) -> (r: Self)
        ensures
            r@ == self@,
    {
        match self {
            IoError::Unknown { description } => IoError::Unknown {
                description: description.clone(),
            },
            IoError::UnsupportedStrides => IoError::UnsupportedStrides,
            IoError::UnsupportedIoOperation => IoError::UnsupportedIoOperation,
            IoError::Memory { description } => IoError::Memory { description: description.clone() },
        }
    }
}

/// What a list of errors says, error by error.
pub open spec fn all_say(errors: Seq<ServerError>) -> Seq<ServerErrorView> {
    Seq::new(errors.len(), |i: int| errors[i].says())
}

/// Copies of all errors, in order.
pub fn duplicate_all(errors: &Vec<ServerError>) -> (r: Vec<ServerError>)
    ensures
        all_say(r@) == all_say(errors@),
{
    let mut copies: Vec<ServerError> = Vec::new();
    let mut i: usize = 0;
    while i < errors.len()
        invariant
            i == copies@.len() <= errors@.len(),
            forall|j: int| 0 <= j < i ==> copies@[j].says() == errors@[j].says(),
        decreases errors@.len() - i,
    {
        copies.push(errors[i].duplicate());
        i += 1;
    }
    assert(all_say(copies@) =~= all_say(errors@));
    copies
}

/// An unhealthy report says exactly what the recorded errors say.
pub proof fn law_unhealthy_says_errors(errors: Vec<ServerError>)
    ensures
        (ServerError::ServerUnhealthy { errors }).says() == (ServerErrorView::ServerUnhealthy {
            errors: all_say(errors@),
        }),
{
    let r = ServerError::ServerUnhealthy { errors };
    let seen = r.says()->errors;
    assert(seen =~= all_say(errors@));
}

/// What an error says tells which error it is, with all that it holds.
pub proof fn law_errors_say_what_they_hold(description: String, error: IoError)
    ensures
        (IoError::Unknown { description })@ == (IoErrorView::Unknown { description: description@ }),
        (IoError::Memory { description })@ == (IoErrorView::Memory { description: description@ }),
        IoError::UnsupportedStrides@ == IoErrorView::UnsupportedStrides,
        IoError::UnsupportedIoOperation@ == IoErrorView::UnsupportedIoOperation,
        ServerError::Io(error).says() == ServerErrorView::Io(error@),
{
}

/// A list of errors says what each of them says, one by one.
pub proof fn law_list_says_each(errors: Seq<ServerError>, error: ServerError, i: int)
    requires
        0 <= i < errors.len(),
    ensures
        all_say(errors).len() == errors.len(),
        all_say(errors)[i] == errors[i].says(),
        all_say(errors.push(error)) == all_say(errors).push(error.says()),
{
    assert(all_say(errors.push(error)) =~= all_say(errors).push(error.says()));
}

/// A copy of a list of errors has as many, and each says the same as the one in its place.
pub proof fn law_copies_say_the_same(errors: &Vec<ServerError>, r: Vec<ServerError>, i: int)
    requires
        call_ensures(duplicate_all, (errors,), r),
        0 <= i < errors@.len(),
    ensures
        r@.len() == errors@.len(),
        r@[i].says() == errors@[i].says(),
{
    law_list_says_each(errors@, errors@[i], i);
    if r@.len() > 0 {
        law_list_says_each(r@, r@[0], 0);
    }
    if i < r@.len() {
        law_list_says_each(r@, r@[i], i);
    }
}

/// A copy of an error says what the error says, and one made of a description says it.
pub proof fn law_copied_error_says_the_same(
    error: &ServerError,
    copy: ServerError,
    io: &IoError,
    io_copy: IoError,
    description: String,
    made: ServerError,
)
    requires
        call_ensures(ServerError::duplicate, (error,), copy),
        call_ensures(IoError::duplicate, (io,), io_copy),
        call_ensures(ServerError::unknown, (description,), made),
    ensures
        copy.says() == error.says(),
        io_copy@ == io@,
        made.says() matches ServerErrorView::Io(said) && (said matches IoErrorView::Unknown {
            description: told,
        } && told == description@),
{
}

} // verus!
