//! Rendering of a tagged string as plain text with markdown marks.
//!
//! A tagged string reaches this module as the sequence of tokens that its
//! reader found in it: literal text, style toggles, colour pushes and pops.
//! Literal text is kept as it is; a bold toggle becomes `**`, an italic
//! toggle `*`; a foreground colour becomes `**` where it is pushed, any other
//! colour `**` where it is popped.

use vstd::prelude::*;

verus! {

/// A text style that a tagged string can switch on and off.
#[derive(Debug, Clone, Copy, PartialEq, Eq, Structural)]
pub enum Style {
    Bold,
    Italic,
    /// Any style that has no markdown mark.
    Other,
}

/// What a colour of a tagged string is applied to.
#[derive(Debug, Clone, Copy, PartialEq, Eq, Structural)]
pub enum ColorUsage {
    Foreground,
    Background,
    Edge,
}

/// One token of a tagged string.
#[derive(Debug)]
pub enum Token {
    /// A run of literal text.
    Text(String),
    /// A style is switched on or off.
    SetStyle { style: Style, enabled: bool },
    /// A colour starts to apply.
    PushColor(ColorUsage),
    /// The colour that was pushed last for this usage ends.
    PopColor(ColorUsage),
}

/// The model of a `Token`.
pub enum TokenModel {
    Text(Seq<char>),
    SetStyle { style: Style, enabled: bool },
    PushColor(ColorUsage),
    PopColor(ColorUsage),
}

impl View for Token {
    type V = TokenModel;

    open spec fn view(&self) -> TokenModel {
        match *self {
            Token::Text(text) => TokenModel::Text(text@),
            Token::SetStyle { style, enabled } => TokenModel::SetStyle { style, enabled },
            Token::PushColor(usage) => TokenModel::PushColor(usage),
            Token::PopColor(usage) => TokenModel::PopColor(usage),
        }
    }
}

/// The models of a list of tokens, in order.
pub open spec fn token_models(tokens: Seq<Token>) -> Seq<TokenModel> {
    tokens.map_values(|token: Token| token@)
}

/// The bold mark, `**`.
pub open spec fn bold_mark() -> Seq<char> {
    seq!['*', '*']
}

/// The italic mark, `*`.
pub open spec fn italic_mark() -> Seq<char> {
    seq!['*']
}

/// The mark of a style toggle. It is the same for on and off.
pub open spec fn style_mark(style: Style) -> Seq<char> {
    match style {
        Style::Bold => bold_mark(),
        Style::Italic => italic_mark(),
        Style::Other => Seq::empty(),
    }
}

/// The mark of a colour push: bold for a foreground colour, nothing else.
pub open spec fn push_mark(usage: ColorUsage) -> Seq<char> {
    if usage == ColorUsage::Foreground {
        bold_mark()
    } else {
        Seq::empty()
    }
}

/// The mark of a colour pop: bold for any colour but a foreground one.
pub open spec fn pop_mark(usage: ColorUsage) -> Seq<char> {
    if usage == ColorUsage::Foreground {
        Seq::empty()
    } else {
        bold_mark()
    }
}

/// The text that one token adds to the rendering.
pub open spec fn token_text(token: TokenModel) -> Seq<char> {
    match token {
        TokenModel::Text(text) => text,
        TokenModel::SetStyle { style, enabled } => style_mark(style),
        TokenModel::PushColor(usage) => push_mark(usage),
        TokenModel::PopColor(usage) => pop_mark(usage),
    }
}

/// The rendering of a token sequence: the texts of its tokens, in order.
pub open spec fn rendered(tokens: Seq<TokenModel>) -> Seq<char>
    decreases tokens.len(),
{
    if tokens.len() == 0 {
        Seq::empty()
    } else {
        rendered(tokens.drop_last()) + token_text(tokens.last())
    }
}

/// Collects the rendering of a tagged string, token by token.
#[derive(Debug)]
pub struct MarkdownWriter {
    buffer: String,
}

impl View for MarkdownWriter {
    type V = Seq<char>;

    closed spec fn view(&self) -> Seq<char> {
        self.buffer@
    }
}

impl Default for MarkdownWriter {
    fn default() -> (writer: Self)
        ensures
            writer@ == Seq::<char>::empty(),
    {
        MarkdownWriter { buffer: String::new() }
    }
}

impl MarkdownWriter {
    /// A writer that has written nothing.
    pub fn new() -> (writer: Self)
        ensures
            writer@ == Seq::<char>::empty(),
    {
        MarkdownWriter { buffer: String::new() }
    }

    /// Appends literal text as it is.
    pub fn write_str(&mut self, text: &str)
        ensures
            final(self)@ == old(self)@ + text@,
    {
        self.buffer.append(text);
    }

    /// Appends the mark of a style toggle: `**` for bold, `*` for italic,
    /// nothing for any other style, whether the style goes on or off.
    pub fn set_style(&mut self, style: Style, enabled: bool)
        ensures
            final(self)@ == old(self)@ + style_mark(style),
    {
        proof {
            reveal_strlit("**");
            reveal_strlit("*");
        }
        match style {
            Style::Bold => {
                self.buffer.append("**");
                assert("**"@ =~= bold_mark());
            },
            Style::Italic => {
                self.buffer.append("*");
                assert("*"@ =~= italic_mark());
            },
            Style::Other => {
                assert(self@ =~= old(self)@ + Seq::<char>::empty());
            },
        }
    }

    /// Appends `**` where a foreground colour starts, nothing for another.
    pub fn push_color(&mut self, usage: ColorUsage)
        ensures
            final(self)@ == old(self)@ + push_mark(usage),
    {
        proof {
            reveal_strlit("**");
        }
        match usage {
            ColorUsage::Foreground => {
                self.buffer.append("**");
                assert("**"@ =~= bold_mark());
            },
            _ => {
                assert(self@ =~= old(self)@ + Seq::<char>::empty());
            },
        }
    }

    /// Appends `**` where a colour other than a foreground colour ends,
    /// nothing where a foreground colour ends.
    pub fn pop_color(&mut self, usage: ColorUsage)
        ensures
            final(self)@ == old(self)@ + pop_mark(usage),
    {
        proof {
            reveal_strlit("**");
        }
        match usage {
            ColorUsage::Foreground => {
                assert(self@ =~= old(self)@ + Seq::<char>::empty());
            },
            _ => {
                self.buffer.append("**");
                assert("**"@ =~= bold_mark());
            },
        }
    }

    /// Appends what one token adds to the rendering.
    pub fn write_token(&mut self, token: &Token)
        ensures
            final(self)@ == old(self)@ + token_text(token@),
    {
        match token {
            Token::Text(text) => self.write_str(text.as_str()),
            Token::SetStyle { style, enabled } => self.set_style(*style, *enabled),
            Token::PushColor(usage) => self.push_color(*usage),
            Token::PopColor(usage) => self.pop_color(*usage),
        }
    }

    /// What has been written so far.
    pub fn as_str(&self) -> (text: &str)
        ensures
            text@ == self@,
    {
        self.buffer.as_str()
    }

    /// Hands out what has been written.
    pub fn into_string(self) -> (text: String)
        ensures
            text@ == self@,
    {
        self.buffer
    }
}

/// Renders the tokens of a tagged string, in order.
pub fn format_string(tokens: &Vec<Token>) -> (text: String)
    ensures
        text@ == rendered(token_models(tokens@)),
{
    let mut writer = MarkdownWriter::new();
    let mut i: usize = 0;
    while i < tokens.len()
        invariant
            i <= tokens.len(),
            writer@ == rendered(token_models(tokens@).take(i as int)),
        decreases tokens.len() - i,
    {
        writer.write_token(&tokens[i]);
        proof {
            let models = token_models(tokens@);
            assert(models.take(i + 1).drop_last() =~= models.take(i as int));
            assert(models.take(i + 1).last() == tokens@[i as int]@);
        }
        i = i + 1;
    }
    assert(token_models(tokens@).take(i as int) =~= token_models(tokens@));
    writer.into_string()
}

/// Rendering goes token by token: the rendering of two sequences, one after
/// the other, is the rendering of the first followed by that of the second.
pub proof fn rendered_concat(first: Seq<TokenModel>, second: Seq<TokenModel>)
    ensures
        rendered(first + second) == rendered(first) + rendered(second),
    decreases second.len(),
{
    if second.len() == 0 {
        assert(first + second =~= first);
        assert(rendered(first) + rendered(second) =~= rendered(first));
    } else {
        rendered_concat(first, second.drop_last());
        assert((first + second).drop_last() =~= first + second.drop_last());
        assert((first + second).last() == second.last());
        assert(rendered(first + second) =~= rendered(first) + rendered(second));
    }
}

/// A sequence of one token renders as the text of that token.
pub proof fn rendered_single(token: TokenModel)
    ensures
        rendered(seq![token]) == token_text(token),
{
    reveal_with_fuel(rendered, 2);
    assert(seq![token].drop_last() =~= Seq::<TokenModel>::empty());
    assert(rendered(seq![token]) =~= token_text(token));
}

/// A style that is switched on before a token sequence and off after it
/// puts the same mark on both sides of what the sequence renders to.
pub proof fn toggles_pair(style: Style, inner: Seq<TokenModel>)
    ensures
        rendered(
            seq![TokenModel::SetStyle { style, enabled: true }] + inner + seq![
                TokenModel::SetStyle { style, enabled: false },
            ],
        ) == style_mark(style) + rendered(inner) + style_mark(style),
{
    let on = TokenModel::SetStyle { style, enabled: true };
    let off = TokenModel::SetStyle { style, enabled: false };
    rendered_single(on);
    rendered_single(off);
    rendered_concat(seq![on], inner);
    rendered_concat(seq![on] + inner, seq![off]);
}

/// Literal text between a pair of bold toggles renders as `**text**`, and
/// between a pair of italic toggles as `*text*`.
pub proof fn toggled_text(text: Seq<char>)
    ensures
        rendered(
            seq![
                TokenModel::SetStyle { style: Style::Bold, enabled: true },
                TokenModel::Text(text),
                TokenModel::SetStyle { style: Style::Bold, enabled: false },
            ],
        ) == seq!['*', '*'] + text + seq!['*', '*'],
        rendered(
            seq![
                TokenModel::SetStyle { style: Style::Italic, enabled: true },
                TokenModel::Text(text),
                TokenModel::SetStyle { style: Style::Italic, enabled: false },
            ],
        ) == seq!['*'] + text + seq!['*'],
{
    let literal = seq![TokenModel::Text(text)];
    rendered_single(TokenModel::Text(text));
    toggles_pair(Style::Bold, literal);
    toggles_pair(Style::Italic, literal);
    assert(seq![TokenModel::SetStyle { style: Style::Bold, enabled: true }] + literal + seq![
        TokenModel::SetStyle { style: Style::Bold, enabled: false },
    ] =~= seq![
        TokenModel::SetStyle { style: Style::Bold, enabled: true },
        TokenModel::Text(text),
        TokenModel::SetStyle { style: Style::Bold, enabled: false },
    ]);
    assert(seq![TokenModel::SetStyle { style: Style::Italic, enabled: true }] + literal + seq![
        TokenModel::SetStyle { style: Style::Italic, enabled: false },
    ] =~= seq![
        TokenModel::SetStyle { style: Style::Italic, enabled: true },
        TokenModel::Text(text),
        TokenModel::SetStyle { style: Style::Italic, enabled: false },
    ]);
}

} // verus!
