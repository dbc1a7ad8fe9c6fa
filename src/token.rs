//! Lexical tokens of a command line.

use vstd::prelude::*;

verus! {

/// The class of a token.
#[derive(PartialEq, Eq, Structural, Clone, Copy, Debug)]
pub enum CommandLineTokenType {
    Argument,
    EOL,
    Ampersand,
    Pipe,
    AndOp,
    OrOp,
    Semicolon,
    OpenParen,
    CloseParen,
}

/// A token: its class and the text it stands for.
#[derive(Debug)]
pub struct CommandLineToken {
    pub class: CommandLineTokenType,
    pub lexeme: String,
}

/// What a token is, with its text as a sequence of characters.
pub struct TokenModel {
    pub class: CommandLineTokenType,
    pub lexeme: Seq<char>,
}

impl View for CommandLineToken {
    type V = TokenModel;

    open spec fn view(&self) -> TokenModel {
        TokenModel { class: self.class, lexeme: self.lexeme@ }
    }
}

/// The fixed text of each operator class (an argument has no fixed text).
pub open spec fn operator_text(class: CommandLineTokenType) -> Seq<char> {
    match class {
        CommandLineTokenType::Argument => seq![],
        CommandLineTokenType::EOL => seq!['\n'],
        CommandLineTokenType::Ampersand => seq!['&'],
        CommandLineTokenType::Pipe => seq!['|'],
        CommandLineTokenType::AndOp => seq!['&', '&'],
        CommandLineTokenType::OrOp => seq!['|', '|'],
        CommandLineTokenType::Semicolon => seq![';'],
        CommandLineTokenType::OpenParen => seq!['('],
        CommandLineTokenType::CloseParen => seq![')'],
    }
}

/// The operator token of class `class`.
pub open spec fn operator(class: CommandLineTokenType) -> TokenModel {
    TokenModel { class, lexeme: operator_text(class) }
}

/// The argument token with text `text`.
pub open spec fn argument_token(text: Seq<char>) -> TokenModel {
    TokenModel { class: CommandLineTokenType::Argument, lexeme: text }
}

/// Whether a line that ends after a token of this class goes on on the next line.
pub open spec fn continues_line(class: CommandLineTokenType) -> bool {
    class == CommandLineTokenType::OrOp || class == CommandLineTokenType::AndOp || class
        == CommandLineTokenType::Pipe
}

/// The views of a sequence of tokens.
pub open spec fn token_views(tokens: Seq<CommandLineToken>) -> Seq<TokenModel> {
    tokens.map_values(|t: CommandLineToken| t@)
}

impl CommandLineToken {
    pub fn argument(lexeme: String) -> (r: CommandLineToken)
        ensures
            r@ == argument_token(lexeme@),
    {
        CommandLineToken { class: CommandLineTokenType::Argument, lexeme }
    }

    pub fn eol() -> (r: CommandLineToken)
        ensures
            r@ == operator(CommandLineTokenType::EOL),
    {
        let lexeme = String::from_str("\n");
        proof {
            reveal_strlit("\n");
        }
        assert(lexeme@ =~= operator_text(CommandLineTokenType::EOL));
        CommandLineToken { class: CommandLineTokenType::EOL, lexeme }
    }

    pub fn semicolon() -> (r: CommandLineToken)
        ensures
            r@ == operator(CommandLineTokenType::Semicolon),
    {
        let lexeme = String::from_str(";");
        proof {
            reveal_strlit(";");
        }
        assert(lexeme@ =~= operator_text(CommandLineTokenType::Semicolon));
        CommandLineToken { class: CommandLineTokenType::Semicolon, lexeme }
    }

    pub fn and_op() -> (r: CommandLineToken)
        ensures
            r@ == operator(CommandLineTokenType::AndOp),
    {
        let lexeme = String::from_str("&&");
        proof {
            reveal_strlit("&&");
        }
        assert(lexeme@ =~= operator_text(CommandLineTokenType::AndOp));
        CommandLineToken { class: CommandLineTokenType::AndOp, lexeme }
    }

    pub fn or_op() -> (r: CommandLineToken)
        ensures
            r@ == operator(CommandLineTokenType::OrOp),
    {
        let lexeme = String::from_str("||");
        proof {
            reveal_strlit("||");
        }
        assert(lexeme@ =~= operator_text(CommandLineTokenType::OrOp));
        CommandLineToken { class: CommandLineTokenType::OrOp, lexeme }
    }

    pub fn ampersand() -> (r: CommandLineToken)
        ensures
            r@ == operator(CommandLineTokenType::Ampersand),
    {
        let lexeme = String::from_str("&");
        proof {
            reveal_strlit("&");
        }
        assert(lexeme@ =~= operator_text(CommandLineTokenType::Ampersand));
        CommandLineToken { class: CommandLineTokenType::Ampersand, lexeme }
    }

    pub fn pipe() -> (r: CommandLineToken)
        ensures
            r@ == operator(CommandLineTokenType::Pipe),
    {
        let lexeme = String::from_str("|");
        proof {
            reveal_strlit("|");
        }
        assert(lexeme@ =~= operator_text(CommandLineTokenType::Pipe));
        CommandLineToken { class: CommandLineTokenType::Pipe, lexeme }
    }

    pub fn open_paren() -> (r: CommandLineToken)
        ensures
            r@ == operator(CommandLineTokenType::OpenParen),
    {
        let lexeme = String::from_str("(");
        proof {
            reveal_strlit("(");
        }
        assert(lexeme@ =~= operator_text(CommandLineTokenType::OpenParen));
        CommandLineToken { class: CommandLineTokenType::OpenParen, lexeme }
    }

    pub fn close_paren() -> (r: CommandLineToken)
        ensures
            r@ == operator(CommandLineTokenType::CloseParen),
    {
        let lexeme = String::from_str(")");
        proof {
            reveal_strlit(")");
        }
        assert(lexeme@ =~= operator_text(CommandLineTokenType::CloseParen));
        CommandLineToken { class: CommandLineTokenType::CloseParen, lexeme }
    }

    /// Whether a newline right after this token continues the statement.
    pub fn should_continue(&self) -> (r: bool)
        ensures
            r == continues_line(self.class),
    {
        self.class == CommandLineTokenType::OrOp || self.class == CommandLineTokenType::AndOp
            || self.class == CommandLineTokenType::Pipe
    }
}

} // verus!
