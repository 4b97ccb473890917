use vstd::prelude::*;

verus! {

/// Why a command handler did not take a request.
#[derive(Debug, PartialEq, Eq, Clone)]
pub enum CommandError<E> {
    /// The first word is not this handler's command.
    CommandMismatch,
    /// A literal word after the command differs.
    SubcommandMismatch,
    /// A required argument has no word left for it.
    ArgumentMissing,
    /// An argument did not parse.
    ArgumentParsing(E),
    /// Words are left once every token is matched.
    ArgumentsLeftOver,
    /// The named argument did not parse.
    NamedArgumentParsing(String, E),
    /// A value the handler takes from the request could not be had.
    RequestError(E),
}

impl<E> CommandError<E> {
    /// The same variant, with `op` applied to the payload where there is one.
    pub fn map_err<F, O>(self, op: O) -> (r: CommandError<F>)
        where
            O: FnOnce(E) -> F,
        requires
            match self {
                CommandError::ArgumentParsing(e) => op.requires((e,)),
                CommandError::NamedArgumentParsing(_, e) => op.requires((e,)),
                CommandError::RequestError(e) => op.requires((e,)),
                _ => true,
            },
        ensures
            match self {
                CommandError::CommandMismatch => r is CommandMismatch,
                CommandError::SubcommandMismatch => r is SubcommandMismatch,
                CommandError::ArgumentMissing => r is ArgumentMissing,
                CommandError::ArgumentsLeftOver => r is ArgumentsLeftOver,
                CommandError::ArgumentParsing(e) => r matches CommandError::ArgumentParsing(f)
                    && op.ensures((e,), f),
                CommandError::NamedArgumentParsing(n, e) => r matches CommandError::NamedArgumentParsing(
                    m,
                    f,
                ) && m == n && op.ensures((e,), f),
                CommandError::RequestError(e) => r matches CommandError::RequestError(f)
                    && op.ensures((e,), f),
            },
    {
        match self {
            CommandError::CommandMismatch => CommandError::CommandMismatch,
            CommandError::SubcommandMismatch => CommandError::SubcommandMismatch,
            CommandError::ArgumentMissing => CommandError::ArgumentMissing,
            CommandError::ArgumentParsing(error) => CommandError::ArgumentParsing(op(error)),
            CommandError::ArgumentsLeftOver => CommandError::ArgumentsLeftOver,
            CommandError::NamedArgumentParsing(name, error) => CommandError::NamedArgumentParsing(
                name,
                op(error),
            ),
            CommandError::RequestError(error) => CommandError::RequestError(op(error)),
        }
    }

    pub open spec fn argument_error(&self) -> bool {
        ||| self is ArgumentMissing
        ||| self is ArgumentParsing
        ||| self is ArgumentsLeftOver
        ||| self is NamedArgumentParsing
    }

    /// The words did not fit the handler's arguments.
    pub fn is_argument_error(&self) -> (r: bool)
        ensures
            r == self.argument_error(),
    {
        match self {
            CommandError::ArgumentMissing => true,
            CommandError::ArgumentParsing(_) => true,
            CommandError::ArgumentsLeftOver => true,
            CommandError::NamedArgumentParsing(_, _) => true,
            _ => false,
        }
    }

    pub fn is_subcommand_mismatch(&self) -> (r: bool)
        ensures
            r == (self is SubcommandMismatch),
    {
        match self {
            CommandError::SubcommandMismatch => true,
            _ => false,
        }
    }

    /// The same variant without its payload.
    pub fn unit_err(self) -> (r: CommandError<()>)
        ensures
            match self {
                CommandError::CommandMismatch => r is CommandMismatch,
                CommandError::SubcommandMismatch => r is SubcommandMismatch,
                CommandError::ArgumentMissing => r is ArgumentMissing,
                CommandError::ArgumentsLeftOver => r is ArgumentsLeftOver,
                CommandError::ArgumentParsing(_) => r == CommandError::<()>::ArgumentParsing(()),
                CommandError::NamedArgumentParsing(n, _) => r
                    == CommandError::<()>::NamedArgumentParsing(n, ()),
                CommandError::RequestError(_) => r == CommandError::<()>::RequestError(()),
            },
    {
        match self {
            CommandError::CommandMismatch => CommandError::CommandMismatch,
            CommandError::SubcommandMismatch => CommandError::SubcommandMismatch,
            CommandError::ArgumentMissing => CommandError::ArgumentMissing,
            CommandError::ArgumentParsing(_) => CommandError::ArgumentParsing(()),
            CommandError::ArgumentsLeftOver => CommandError::ArgumentsLeftOver,
            CommandError::NamedArgumentParsing(name, _) => CommandError::NamedArgumentParsing(
                name,
                (),
            ),
            CommandError::RequestError(_) => CommandError::RequestError(()),
        }
    }
}

/// A matching error as the contracts see it, names as text.
pub ghost enum ErrorView {
    CommandMismatch,
    SubcommandMismatch,
    ArgumentMissing,
    ArgumentParsing,
    ArgumentsLeftOver,
    NamedArgumentParsing(Seq<char>),
    RequestError,
}

pub open spec fn error_view<E>(e: CommandError<E>) -> ErrorView {
    match e {
        CommandError::CommandMismatch => ErrorView::CommandMismatch,
        CommandError::SubcommandMismatch => ErrorView::SubcommandMismatch,
        CommandError::ArgumentMissing => ErrorView::ArgumentMissing,
        CommandError::ArgumentParsing(_) => ErrorView::ArgumentParsing,
        CommandError::ArgumentsLeftOver => ErrorView::ArgumentsLeftOver,
        CommandError::NamedArgumentParsing(n, _) => ErrorView::NamedArgumentParsing(n@),
        CommandError::RequestError(_) => ErrorView::RequestError,
    }
}

} // verus!
