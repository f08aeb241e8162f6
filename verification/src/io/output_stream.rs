use vstd::prelude::*;
use vstd::string::*;

verus! {

/// `new` is `old` after `text` was written to it.
pub open spec fn wrote<O: OutputStream>(old: &O, new: &O, text: Seq<char>) -> bool {
    &&& new.spec_keeps() == old.spec_keeps()
    &&& new.spec_pending() == if old.spec_keeps() {
        old.spec_pending() + text
    } else {
        old.spec_pending()
    }
}

/// `new` still holds all the text `old` held, perhaps with more written after it.
pub open spec fn kept_output<O: OutputStream>(old: &O, new: &O) -> bool {
    &&& new.spec_keeps() == old.spec_keeps()
    &&& old.spec_pending().len() <= new.spec_pending().len()
    &&& forall|i: int| 0 <= i < old.spec_pending().len() ==> #[trigger] new.spec_pending()[i] == old.spec_pending()[i]
}

/// `new` holds what `old` held followed by `text` (where `old` keeps what is written),
/// perhaps with more written after it.
pub open spec fn wrote_first<O: OutputStream>(old: &O, new: &O, text: Seq<char>) -> bool {
    let expected = if old.spec_keeps() {
        old.spec_pending() + text
    } else {
        old.spec_pending()
    };
    &&& new.spec_keeps() == old.spec_keeps()
    &&& expected.len() <= new.spec_pending().len()
    &&& forall|i: int| 0 <= i < expected.len() ==> #[trigger] new.spec_pending()[i] == expected[i]
}

/// Writing text keeps what was written before.
pub proof fn lemma_wrote_keeps<O: OutputStream>(old: &O, new: &O, text: Seq<char>)
    requires wrote(old, new, text),
    ensures kept_output(old, new),
{
}

/// Text written first stays first when more is kept after it.
pub proof fn lemma_wrote_first_kept<O: OutputStream>(a: &O, b: &O, c: &O, text: Seq<char>)
    requires
        wrote_first(a, b, text),
        kept_output(b, c),
    ensures
        wrote_first(a, c, text),
{
}

/// Somewhere Forth's printed text goes.
pub trait OutputStream {
    /// The text written and not consumed yet.
    spec fn spec_pending(&self) -> Seq<char>;

    /// Whether written text is kept (rather than thrown away).
    spec fn spec_keeps(&self) -> bool;

    fn write(&mut self, m: &str)
        ensures
            final(self).spec_keeps() == old(self).spec_keeps(),
            final(self).spec_pending() == if old(self).spec_keeps() {
                old(self).spec_pending() + m@
            } else {
                old(self).spec_pending()
            },
    ;

    /// Writes `m` and a line break.
    fn writeln(&mut self, m: &str)
        ensures
            final(self).spec_keeps() == old(self).spec_keeps(),
            final(self).spec_pending() == if old(self).spec_keeps() {
                old(self).spec_pending() + m@ + seq!['\n']
            } else {
                old(self).spec_pending()
            },
    {
        self.write(m);
        self.write("\n");
        proof {
            reveal_strlit("\n");
        }
    }

    /// Takes the text written so far.
    fn consume(&mut self) -> (r: String)
        ensures
            r@ == old(self).spec_pending(),
            final(self).spec_pending() == Seq::<char>::empty(),
            final(self).spec_keeps() == old(self).spec_keeps(),
    ;
}

/// Keeps everything written until it is consumed.
pub struct BufferedOutputStream {
    stream: String,
}

impl BufferedOutputStream {
    pub fn new() -> (r: Self)
        ensures r.spec_pending() == Seq::<char>::empty(), r.spec_keeps(),
    {
        BufferedOutputStream { stream: String::new() }
    }
}

impl OutputStream for BufferedOutputStream {
    closed spec fn spec_pending(&self) -> Seq<char> {
        self.stream@
    }

    open spec fn spec_keeps(&self) -> bool {
        true
    }

    fn write(&mut self, m: &str) {
        self.stream.append(m);
    }

    fn consume(&mut self) -> (r: String) {
        let mut taken = String::new();
        std::mem::swap(&mut taken, &mut self.stream);
        taken
    }
}

/// Throws away everything written.
pub struct DropOutputStream {}

impl DropOutputStream {
    pub fn new() -> (r: Self)
        ensures r.spec_pending() == Seq::<char>::empty(), !r.spec_keeps(),
    {
        DropOutputStream {  }
    }
}

impl OutputStream for DropOutputStream {
    open spec fn spec_pending(&self) -> Seq<char> {
        Seq::empty()
    }

    open spec fn spec_keeps(&self) -> bool {
        false
    }

    fn write(&mut self, _m: &str) {
    }

    fn consume(&mut self) -> (r: String) {
        String::new()
    }
}

/// The output a Forth machine writes to: kept for whoever consumes it, or dropped.
pub enum OutputSink {
    Buffered(BufferedOutputStream),
    Dropped(DropOutputStream),
}

impl OutputSink {
    /// An output that keeps what is written.
    pub fn buffered() -> (r: Self)
        ensures r.spec_pending() == Seq::<char>::empty(), r.spec_keeps(),
    {
        OutputSink::Buffered(BufferedOutputStream::new())
    }

    /// An output that drops what is written.
    pub fn dropped() -> (r: Self)
        ensures r.spec_pending() == Seq::<char>::empty(), !r.spec_keeps(),
    {
        OutputSink::Dropped(DropOutputStream::new())
    }
}

impl OutputStream for OutputSink {
    open spec fn spec_pending(&self) -> Seq<char> {
        match self {
            OutputSink::Buffered(b) => b.spec_pending(),
            OutputSink::Dropped(d) => d.spec_pending(),
        }
    }

    open spec fn spec_keeps(&self) -> bool {
        self is Buffered
    }

    fn write(&mut self, m: &str) {
        match self {
            OutputSink::Buffered(b) => b.write(m),
            OutputSink::Dropped(d) => d.write(m),
        }
    }

    fn consume(&mut self) -> (r: String) {
        match self {
            OutputSink::Buffered(b) => b.consume(),
            OutputSink::Dropped(d) => d.consume(),
        }
    }
}

} // verus!
