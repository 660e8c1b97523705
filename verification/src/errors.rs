//! Diagnostic kinds and the ordered, append-only diagnostic collector shared
//! by every pass of the front end.

use vstd::prelude::*;

verus! {

/// The three diagnostic classes the front end can report.
#[derive(Debug, Clone, Copy, PartialEq, Eq, Structural)]
pub enum ErrorType {
    SemanticError,
    SyntaxError,
    LexicalError,
}

impl ErrorType {
    /// Human-readable label of the diagnostic class.
    pub fn as_str(&self) -> (r: &'static str)
        ensures
            self is SemanticError ==> r@ == "Sematic Error"@,
            self is SyntaxError ==> r@ == "Syntax Error"@,
            self is LexicalError ==> r@ == "Lexical Error"@,
    {
        match self {
            ErrorType::SemanticError => "Sematic Error",
            ErrorType::SyntaxError => "Syntax Error",
            ErrorType::LexicalError => "Lexical Error",
        }
    }
}

/// A single diagnostic: class, message, source position and span length.
#[derive(Debug)]
pub struct CompilerError {
    pub error_type: ErrorType,
    pub error_message: String,
    pub pos: (u32, u32),
    pub length: u32,
}

impl Clone for CompilerError {
    fn clone(&self) -> (r: Self)
        ensures
            r.error_type == self.error_type,
            r.error_message@ == self.error_message@,
            r.pos == self.pos,
            r.length == self.length,
    {
        CompilerError {
            error_type: self.error_type,
            error_message: self.error_message.clone(),
            pos: self.pos,
            length: self.length,
        }
    }
}

impl CompilerError {
    pub fn new(error_type: ErrorType, error_message: &str, error_pos: (u32, u32), length: u32)
        -> (r: CompilerError)
        ensures
            r.error_type == error_type,
            r.error_message@ == error_message@,
            r.pos == error_pos,
            r.length == length,
    {
        CompilerError {
            error_type,
            error_message: error_message.to_owned(),
            pos: error_pos,
            length,
        }
    }
}

/// Ordered, append-only collector of diagnostics. Every pass appends and
/// never removes, so report order is the traversal order.
pub struct ErrorPipeline {
    errors: Vec<CompilerError>,
}

impl ErrorPipeline {
    /// The recorded diagnostics, oldest first.
    pub closed spec fn view(&self) -> Seq<CompilerError> {
        self.errors@
    }

    pub fn new() -> (r: ErrorPipeline)
        ensures
            r@ == Seq::<CompilerError>::empty(),
    {
        ErrorPipeline { errors: Vec::new() }
    }

    /// Append a diagnostic built from its parts.
    pub fn raise_error(
        &mut self,
        error_type: ErrorType,
        error_message: &str,
        error_pos: (u32, u32),
        length: u32,
    )
        ensures
            final(self)@.len() == old(self)@.len() + 1,
            final(self)@ == old(self)@.push(final(self)@.last()),
            final(self)@.last().error_type == error_type,
            final(self)@.last().error_message@ == error_message@,
            final(self)@.last().pos == error_pos,
            final(self)@.last().length == length,
    {
        self.errors.push(CompilerError::new(error_type, error_message, error_pos, length));
    }

    /// Append an already-built diagnostic.
    pub fn report_error(&mut self, err: CompilerError)
        ensures
            final(self)@ == old(self)@.push(err),
    {
        self.errors.push(err);
    }

    /// Read one recorded diagnostic.
    pub fn get(&self, i: usize) -> (r: &CompilerError)
        requires
            i < self@.len(),
        ensures
            *r == self@[i as int],
    {
        &self.errors[i]
    }

    /// How many diagnostics have been recorded.
    pub fn len(&self) -> (n: usize)
        ensures
            n == self@.len(),
    {
        self.errors.len()
    }

    /// Whether the whole run succeeded: no diagnostic was recorded.
    pub fn is_empty(&self) -> (r: bool)
        ensures
            r == (self@.len() == 0),
    {
        self.errors.len() == 0
    }
}

/// `b` is `a` with one diagnostic of the given shape appended.
pub open spec fn pushed_diag(
    a: Seq<CompilerError>,
    b: Seq<CompilerError>,
    et: ErrorType,
    msg: Seq<char>,
    pos: (u32, u32),
    len: u32,
) -> bool {
    &&& b.len() == a.len() + 1
    &&& b.subrange(0, a.len() as int) == a
    &&& b.last().error_type == et
    &&& b.last().error_message@ == msg
    &&& b.last().pos == pos
    &&& b.last().length == len
}

/// `b` extends `a`, and everything appended is a diagnostic of class `et`.
pub open spec fn appended_with(a: Seq<CompilerError>, b: Seq<CompilerError>, et: ErrorType) -> bool {
    &&& a.len() <= b.len()
    &&& b.subrange(0, a.len() as int) == a
    &&& forall|j: int| a.len() <= j < b.len() ==> (#[trigger] b[j]).error_type == et
}

/// Extending by nothing is an extension.
pub broadcast proof fn lemma_appended_refl(a: Seq<CompilerError>, et: ErrorType)
    ensures
        #[trigger] appended_with(a, a, et),
{
    assert(a.subrange(0, a.len() as int) =~= a);
}

/// Two extensions of one class compose.
pub broadcast proof fn lemma_appended_trans(
    a: Seq<CompilerError>,
    b: Seq<CompilerError>,
    c: Seq<CompilerError>,
    et: ErrorType,
)
    requires
        appended_with(a, b, et),
        appended_with(b, c, et),
    ensures
        #![trigger appended_with(a, b, et), appended_with(b, c, et)]
        appended_with(a, c, et),
{
    assert(c.subrange(0, a.len() as int) =~= b.subrange(0, a.len() as int));
    assert forall|j: int| a.len() <= j < c.len() implies (#[trigger] c[j]).error_type == et by {
        if j < b.len() {
            assert(b[j] == c.subrange(0, b.len() as int)[j]);
        }
    }
}

/// One appended diagnostic is an extension by its class.
pub broadcast proof fn lemma_pushed_diag_appended(
    a: Seq<CompilerError>,
    b: Seq<CompilerError>,
    et: ErrorType,
    msg: Seq<char>,
    pos: (u32, u32),
    len: u32,
)
    requires
        pushed_diag(a, b, et, msg, pos, len),
    ensures
        #![trigger pushed_diag(a, b, et, msg, pos, len)]
        appended_with(a, b, et),
{
    assert forall|j: int| a.len() <= j < b.len() implies (#[trigger] b[j]).error_type == et by {
        assert(j == b.len() - 1);
    }
}

} // verus!
