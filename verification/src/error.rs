//! A common error type.
//!
//! [`Error`] carries an [`ErrorKind`], a message, a list of context messages
//! and (optionally) the error that caused it. [`Result`] is the matching
//! result alias, and the extension traits [`ResultExt`], [`WrapErr`] and
//! [`OptionExt`] attach context, wrap errors and turn options into results.
use vstd::prelude::*;
use vstd::string::*;

verus! {

/// General categories of errors.
#[derive(Clone, Copy, Debug, PartialEq, Eq, Hash, Structural)]
pub enum ErrorKind {
    /// A network error has occurred
    NetworkError,
    /// A correlation check has failed
    CorrelationFailure,
    /// A serialization error has occurred
    SerializationError,
    /// A filesystem error has occurred
    FilesystemError,
    /// An error occurred while initializing an object/protocol
    InitializationError,
    /// An operation that is unsupported was attempted
    UnsupportedError,
    /// An error that does not fall under any other kind has occurred
    OtherError,
}

/// The name of a kind, as its variant is spelled.
pub open spec fn kind_name(k: ErrorKind) -> Seq<char> {
    match k {
        ErrorKind::NetworkError => "NetworkError"@,
        ErrorKind::CorrelationFailure => "CorrelationFailure"@,
        ErrorKind::SerializationError => "SerializationError"@,
        ErrorKind::FilesystemError => "FilesystemError"@,
        ErrorKind::InitializationError => "InitializationError"@,
        ErrorKind::UnsupportedError => "UnsupportedError"@,
        ErrorKind::OtherError => "OtherError"@,
    }
}

/// The human-readable description of a kind.
pub open spec fn kind_description(k: ErrorKind) -> Seq<char> {
    match k {
        ErrorKind::NetworkError => "A network error has occurred"@,
        ErrorKind::CorrelationFailure => "A correlation check has failed"@,
        ErrorKind::SerializationError => "A serialization error has occurred"@,
        ErrorKind::FilesystemError => "A filesystem error has occurred"@,
        ErrorKind::InitializationError => "An error occurred while initializing an object/protocol"@,
        ErrorKind::UnsupportedError => "An operation that is unsupported was attempted"@,
        ErrorKind::OtherError => "An error that does not fall under any other Swanky error kind has occurred"@,
    }
}

impl ErrorKind {
    /// The variant name of this kind (what `{:?}` prints).
    pub fn name(&self) -> (s: &'static str)
        ensures
            s@ == kind_name(*self),
    {
        match self {
            ErrorKind::NetworkError => "NetworkError",
            ErrorKind::CorrelationFailure => "CorrelationFailure",
            ErrorKind::SerializationError => "SerializationError",
            ErrorKind::FilesystemError => "FilesystemError",
            ErrorKind::InitializationError => "InitializationError",
            ErrorKind::UnsupportedError => "UnsupportedError",
            ErrorKind::OtherError => "OtherError",
        }
    }

    /// The human-readable description of this kind (what `{}` prints).
    pub fn description(&self) -> (s: &'static str)
        ensures
            s@ == kind_description(*self),
    {
        match self {
            ErrorKind::NetworkError => "A network error has occurred",
            ErrorKind::CorrelationFailure => "A correlation check has failed",
            ErrorKind::SerializationError => "A serialization error has occurred",
            ErrorKind::FilesystemError => "A filesystem error has occurred",
            ErrorKind::InitializationError => "An error occurred while initializing an object/protocol",
            ErrorKind::UnsupportedError => "An operation that is unsupported was attempted",
            ErrorKind::OtherError => "An error that does not fall under any other Swanky error kind has occurred",
        }
    }
}

/// The decimal digit `d` (for `d < 10`).
pub open spec fn digit_char(d: nat) -> char {
    seq!['0', '1', '2', '3', '4', '5', '6', '7', '8', '9'][d as int]
}

/// The decimal representation of `n`, without leading zeros.
pub open spec fn decimal(n: nat) -> Seq<char>
    decreases n,
{
    if n < 10 {
        seq![digit_char(n)]
    } else {
        decimal(n / 10).push(digit_char(n % 10))
    }
}

/// The decimal digit `d` as a one-character string.
fn digit_str(d: usize) -> (s: &'static str)
    requires
        d < 10,
    ensures
        s@ == seq![digit_char(d as nat)],
{
    proof {
        reveal_strlit("0");
        reveal_strlit("1");
        reveal_strlit("2");
        reveal_strlit("3");
        reveal_strlit("4");
        reveal_strlit("5");
        reveal_strlit("6");
        reveal_strlit("7");
        reveal_strlit("8");
        reveal_strlit("9");
    }
    match d {
        0 => "0",
        1 => "1",
        2 => "2",
        3 => "3",
        4 => "4",
        5 => "5",
        6 => "6",
        7 => "7",
        8 => "8",
        9 => "9",
        _ => "9",
    }
}

/// Formats `n` in decimal, without leading zeros (as `to_string` on
/// `usize` does).
fn usize_to_decimal(n: usize) -> (s: String)
    ensures
        s@ == decimal(n as nat),
    decreases n,
{
    if n < 10 {
        String::from_str(digit_str(n))
    } else {
        let mut s = usize_to_decimal(n / 10);
        s.append(digit_str(n % 10));
        s
    }
}

/// The listing of context messages: one line per message, `\t<index>: <message>`.
pub open spec fn context_lines(ctx: Seq<Seq<char>>) -> Seq<char>
    decreases ctx.len(),
{
    if ctx.len() == 0 {
        Seq::empty()
    } else {
        context_lines(ctx.drop_last()) + "\t"@ + decimal((ctx.len() - 1) as nat) + ": "@
            + ctx.last() + "\n"@
    }
}

/// List context messages, one per line, each after a tab and its index.
pub fn pretty_context(context: &[String]) -> (out: String)
    ensures
        out@ == context_lines(context@.map_values(|s: String| s@)),
{
    let mut out = String::new();
    let mut i: usize = 0;
    while i < context.len()
        invariant
            i <= context@.len(),
            out@ == context_lines(context@.map_values(|s: String| s@).take(i as int)),
        decreases context@.len() - i,
    {
        out.append("\t");
        let idx = usize_to_decimal(i);
        out.append(idx.as_str());
        out.append(": ");
        out.append(context[i].as_str());
        out.append("\n");
        proof {
            let ctx = context@.map_values(|s: String| s@);
            assert(ctx.take(i + 1).drop_last() =~= ctx.take(i as int));
            assert(ctx.take(i + 1).last() == context@[i as int]@);
            assert(out@ =~= context_lines(ctx.take(i + 1)));
        }
        i = i + 1;
    }
    proof {
        let ctx = context@.map_values(|s: String| s@);
        assert(ctx.take(ctx.len() as int) =~= ctx);
    }
    out
}

#[derive(Debug)]
struct ErrorInner {
    kind: ErrorKind,
    message: String,
    context: Vec<String>,
    source: Option<Error>,
}

/// The error type.
///
/// Errors are constructed with [`Error::new`]; context can be added at any
/// time with [`Error::context`].
#[derive(Debug)]
pub struct Error {
    inner: Box<ErrorInner>,
}

impl Error {
    /// The kind of this error.
    pub closed spec fn spec_kind(&self) -> ErrorKind {
        self.inner.kind
    }

    /// The message of this error.
    pub closed spec fn spec_message(&self) -> Seq<char> {
        self.inner.message@
    }

    /// The context messages of this error, oldest first.
    pub closed spec fn spec_context(&self) -> Seq<Seq<char>> {
        self.inner.context@.map_values(|s: String| s@)
    }

    /// Whether this error has a source error.
    pub closed spec fn spec_has_source(&self) -> bool {
        self.inner.source is Some
    }

    /// The source error (meaningful when [`Error::spec_has_source`] holds).
    pub closed spec fn spec_source(&self) -> Error {
        self.inner.source->0
    }

    /// Construct a new `Error` from a kind, a message and (optionally) a
    /// source error. The new error carries no context.
    pub fn new(kind: ErrorKind, message: String, source: Option<Error>) -> (e: Self)
        ensures
            e.spec_kind() == kind,
            e.spec_message() == message@,
            e.spec_context() == Seq::<Seq<char>>::empty(),
            e.spec_has_source() == source is Some,
            source matches Some(s) ==> e.spec_source() == s,
    {
        let e = Error {
            inner: Box::new(ErrorInner { kind, message, context: Vec::new(), source }),
        };
        proof {
            assert(e.inner.context@.map_values(|s: String| s@) =~= Seq::<Seq<char>>::empty());
        }
        e
    }

    /// Add a context message to this error; it comes after every context
    /// message already present.
    pub fn context(self, context_message: String) -> (e: Self)
        ensures
            context_step(self, e, context_message@),
            e.spec_kind() == self.spec_kind(),
            e.spec_message() == self.spec_message(),
            e.spec_context() == self.spec_context().push(context_message@),
            e.spec_has_source() == self.spec_has_source(),
            e.spec_has_source() ==> e.spec_source() == self.spec_source(),
    {
        let Error { inner } = self;
        let ErrorInner { kind, message, mut context, source } = *inner;
        let ghost old_context = context@;
        context.push(context_message);
        proof {
            assert(context@.map_values(|s: String| s@) =~= old_context.map_values(
                |s: String| s@,
            ).push(context_message@));
        }
        Error { inner: Box::new(ErrorInner { kind, message, context, source }) }
    }

    /// The kind of this error.
    pub fn kind(&self) -> (k: ErrorKind)
        ensures
            k == self.spec_kind(),
    {
        self.inner.kind
    }

    /// The message of this error.
    pub fn message(&self) -> (s: &str)
        ensures
            s@ == self.spec_message(),
    {
        self.inner.message.as_str()
    }

    /// The context messages of this error, oldest first.
    pub fn contexts(&self) -> (v: Vec<String>)
        ensures
            v@.map_values(|s: String| s@) == self.spec_context(),
    {
        let mut out: Vec<String> = Vec::new();
        let n = self.inner.context.len();
        let mut i: usize = 0;
        while i < n
            invariant
                n == self.inner.context@.len(),
                i <= n,
                out@.len() == i,
                forall|j: int| 0 <= j < i ==> out@[j]@ == self.inner.context@[j]@,
            decreases n - i,
        {
            out.push(self.inner.context[i].clone());
            i = i + 1;
        }
        proof {
            assert(out@.map_values(|s: String| s@) =~= self.inner.context@.map_values(
                |s: String| s@,
            ));
        }
        out
    }

    /// The source error, if any.
    pub fn source(&self) -> (s: Option<&Error>)
        ensures
            s is Some == self.spec_has_source(),
            s matches Some(e) ==> *e == self.spec_source(),
    {
        match &self.inner.source {
            Some(e) => Some(e),
            None => None,
        }
    }

    /// Create a new error with the kind and message of `other`, whose
    /// source is `self`.
    pub fn wrap_err(self, other: Self) -> (e: Self)
        ensures
            e.spec_kind() == other.spec_kind(),
            e.spec_message() == other.spec_message(),
            e.spec_context() == Seq::<Seq<char>>::empty(),
            e.spec_has_source(),
            e.spec_source() == self,
    {
        let Error { inner } = other;
        let ErrorInner { kind, message, context: _, source: _ } = *inner;
        Self::new(kind, message, Some(self))
    }

    /// The detailed description: the kind, the message, the context
    /// messages (if any) and the display of the source error (if any).
    pub fn debug_string(&self) -> (s: String)
        ensures
            s@ == "Kind: "@ + kind_name(self.spec_kind()) + "\n\nMessage:\n\t"@ + self.spec_message()
                + (if self.spec_context().len() == 0 {
                Seq::<char>::empty()
            } else {
                "\n\nContext:\n"@ + context_lines(self.spec_context())
            }) + (if self.spec_has_source() {
                "\n\nCaused by:\n\t"@ + "Kind: "@ + kind_name(self.spec_source().spec_kind())
                    + "\nMessage: "@ + self.spec_source().spec_message()
            } else {
                Seq::<char>::empty()
            }),
    {
        let mut s = String::from_str("Kind: ");
        s.append(self.inner.kind.name());
        s.append("\n\nMessage:\n\t");
        s.append(self.inner.message.as_str());
        let ghost after_message = s@;
        if self.inner.context.len() > 0 {
            s.append("\n\nContext:\n");
            let lines = pretty_context(self.inner.context.as_slice());
            s.append(lines.as_str());
        }
        let ghost after_context = s@;
        match &self.inner.source {
            Some(cause) => {
                s.append("\n\nCaused by:\n\t");
                let d = cause.display_string();
                s.append(d.as_str());
            },
            None => {},
        }
        s
    }

    /// A one-line description: `Kind: <kind>` and `Message: <message>` on
    /// two lines.
    pub fn display_string(&self) -> (s: String)
        ensures
            s@ == "Kind: "@ + kind_name(self.spec_kind()) + "\nMessage: "@ + self.spec_message(),
    {
        let mut s = String::from_str("Kind: ");
        s.append(self.inner.kind.name());
        s.append("\nMessage: ");
        s.append(self.inner.message.as_str());
        s
    }
}

/// An alias for `core::result::Result<T, Error>`.
pub type Result<T> = core::result::Result<T, Error>;

/// Construct an ad-hoc error from a kind and a message, with no source.
pub fn format_err(kind: ErrorKind, message: &str) -> (e: Error)
    ensures
        e.spec_kind() == kind,
        e.spec_message() == message@,
        e.spec_context() == Seq::<Seq<char>>::empty(),
        !e.spec_has_source(),
{
    Error::new(kind, String::from_str(message), None)
}

/// Marker for the types the extension traits below are implemented for.
pub trait Sealed {}

impl<T, E> Sealed for core::result::Result<T, E> {}

impl<T> Sealed for Option<T> {}

/// Adds context to the error of a [`Result`].
pub trait ResultExt<T>: Sealed {
    /// Provide additional context to the error value.
    fn context(self, msg: String) -> Result<T>;

    /// Provide additional context to the error value, made by `f` only
    /// when there is an error.
    fn with_context<F: FnOnce() -> String>(self, f: F) -> Result<T>
        requires
            f.requires(()),
    ;
}

impl<T> ResultExt<T> for Result<T> {
    fn context(self, msg: String) -> (r: Result<T>)
        ensures
            self matches Ok(v) ==> (r matches Ok(w) && w == v),
            self matches Err(e) ==> (r matches Err(f) && f.spec_kind() == e.spec_kind()
                && f.spec_message() == e.spec_message() && f.spec_context() == e.spec_context().push(
                msg@,
            ) && f.spec_has_source() == e.spec_has_source() && (f.spec_has_source()
                ==> f.spec_source() == e.spec_source())),
    {
        match self {
            Ok(v) => Ok(v),
            Err(e) => Err(e.context(msg)),
        }
    }

    fn with_context<F: FnOnce() -> String>(self, f: F) -> (r: Result<T>)
        ensures
            self matches Ok(v) ==> (r matches Ok(w) && w == v),
            self matches Err(e) ==> (r matches Err(g) && exists|c: String|
                f.ensures((), c) && #[trigger] context_step(e, g, c@)),
    {
        match self {
            Ok(v) => Ok(v),
            Err(e) => {
                let c = f();
                let ghost cv = c@;
                let g = e.context(c);
                assert(context_step(e, g, cv));
                Err(g)
            },
        }
    }
}

/// Wraps the error of a result in a new [`Error`] whose source is the old
/// error.
pub trait WrapErr: Sealed {
    /// The type of a successful computation.
    type Output;

    /// Wrap the error value with a new [`Error`] of the given kind and
    /// message, using this error as its source.
    fn wrap_err(self, kind: ErrorKind, msg: String) -> Result<Self::Output>;

    /// Wrap the error value with a new [`Error`] of the given kind and a
    /// message made by `f` only when there is an error, using this error as
    /// its source.
    fn wrap_err_with<F: FnOnce() -> String>(self, kind: ErrorKind, f: F) -> Result<Self::Output>
        requires
            f.requires(()),
    ;
}

impl<T> WrapErr for Result<T> {
    type Output = T;

    fn wrap_err(self, kind: ErrorKind, msg: String) -> (r: Result<T>)
        ensures
            self matches Ok(v) ==> (r matches Ok(w) && w == v),
            self matches Err(e) ==> (r matches Err(f) && f.spec_kind() == kind && f.spec_message()
                == msg@ && f.spec_context() == Seq::<Seq<char>>::empty() && f.spec_has_source()
                && f.spec_source() == e),
    {
        match self {
            Ok(v) => Ok(v),
            Err(e) => Err(Error::new(kind, msg, Some(e))),
        }
    }

    fn wrap_err_with<F: FnOnce() -> String>(self, kind: ErrorKind, f: F) -> (r: Result<T>)
        ensures
            self matches Ok(v) ==> (r matches Ok(w) && w == v),
            self matches Err(e) ==> (r matches Err(g) && g.spec_kind() == kind
                && g.spec_context() == Seq::<Seq<char>>::empty() && g.spec_has_source()
                && g.spec_source() == e && exists|c: String|
                f.ensures((), c) && #[trigger] c@ == g.spec_message()),
    {
        match self {
            Ok(v) => Ok(v),
            Err(e) => {
                let c = f();
                let ghost cv = c@;
                let g = Error::new(kind, c, Some(e));
                assert(cv == g.spec_message());
                Err(g)
            },
        }
    }
}

/// Turns an [`Option`] into a [`Result`].
pub trait OptionExt<T>: Sealed {
    /// Map `Some(v)` to `Ok(v)` and `None` to a new [`Error`].
    fn ok_or_swanky_error(self, kind: ErrorKind, message: String) -> Result<T>;
}

impl<T> OptionExt<T> for Option<T> {
    fn ok_or_swanky_error(self, kind: ErrorKind, message: String) -> (r: Result<T>)
        ensures
            self matches Some(v) ==> (r matches Ok(w) && w == v),
            self is None ==> (r matches Err(f) && f.spec_kind() == kind && f.spec_message()
                == message@ && f.spec_context() == Seq::<Seq<char>>::empty()
                && !f.spec_has_source()),
    {
        match self {
            Some(ok) => Ok(ok),
            None => Err(Error::new(kind, message, None)),
        }
    }
}

/// What adding the context message `c` to `before` gives `after`: the same
/// kind, message and source, and `c` after the context messages.
pub open spec fn context_step(before: Error, after: Error, c: Seq<char>) -> bool {
    &&& after.spec_kind() == before.spec_kind()
    &&& after.spec_message() == before.spec_message()
    &&& after.spec_context() == before.spec_context().push(c)
    &&& after.spec_has_source() == before.spec_has_source()
    &&& after.spec_has_source() ==> after.spec_source() == before.spec_source()
}

/// Adding context only ever appends: after any number of context messages
/// `cs` added in turn to a new error, the error keeps its kind, message and
/// source, and its context messages are `cs` in the order they were added.
pub proof fn contexts_append_in_order(es: Seq<Error>, cs: Seq<Seq<char>>)
    requires
        es.len() == cs.len() + 1,
        es[0].spec_context() == Seq::<Seq<char>>::empty(),
        forall|i: int| 0 <= i < cs.len() ==> #[trigger] context_step(es[i], es[i + 1], cs[i]),
    ensures
        es.last().spec_kind() == es[0].spec_kind(),
        es.last().spec_message() == es[0].spec_message(),
        es.last().spec_context() == cs,
        es.last().spec_has_source() == es[0].spec_has_source(),
        es[0].spec_has_source() ==> es.last().spec_source() == es[0].spec_source(),
    decreases cs.len(),
{
    if cs.len() > 0 {
        let n = cs.len() as int;
        let j = n - 1;
        assert(context_step(es[j], es[j + 1], cs[j]));
        let es2 = es.drop_last();
        let cs2 = cs.drop_last();
        assert forall|i: int| 0 <= i < cs2.len() implies #[trigger] context_step(
            es2[i],
            es2[i + 1],
            cs2[i],
        ) by {
            assert(context_step(es[i], es[i + 1], cs[i]));
        }
        contexts_append_in_order(es2, cs2);
        assert(es.drop_last().last() == es[n - 1]);
        assert(cs.drop_last().push(cs[n - 1]) =~= cs);
    } else {
        assert(cs =~= Seq::<Seq<char>>::empty());
    }
}

} // verus!
