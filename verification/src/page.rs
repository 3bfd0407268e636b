//! Text pages made of lines: the Prometheus exposition format.

use vstd::prelude::*;

use crate::text::{decimal, decimal_of};

verus! {

/// The text of `lines`, each ended by a line feed.
pub open spec fn page_text(lines: Seq<Seq<char>>) -> Seq<char>
    decreases lines.len(),
{
    if lines.len() == 0 {
        Seq::empty()
    } else {
        page_text(lines.drop_last()) + lines.last() + "\n"@
    }
}

/// Pages one after the other are the page of the lines of both, and every page
/// ends its last line.
pub proof fn law_pages_add_up(first: Seq<Seq<char>>, second: Seq<Seq<char>>)
    ensures
        page_text(first + second) == page_text(first) + page_text(second),
        second.len() > 0 ==> page_text(second).len() > 0 && page_text(second).last() == '\n',
        second.len() == 1 ==> page_text(second) == second[0].push('\n'),
    decreases second.len(),
{
    reveal_strlit("\n");
    if second.len() > 0 {
        law_pages_add_up(first, second.drop_last());
        assert((first + second).drop_last() =~= first + second.drop_last());
        assert(page_text(first) + page_text(second.drop_last()) + second.last() + "\n"@
            =~= page_text(first) + (page_text(second.drop_last()) + second.last() + "\n"@));
        if second.len() == 1 {
            assert(page_text(second.drop_last()) =~= Seq::<char>::empty());
            assert(page_text(second) =~= second[0].push('\n'));
        }
    } else {
        assert(first + second =~= first);
        assert(page_text(first) + page_text(second) =~= page_text(first));
    }
}

/// The two comment lines that open a metric family.
pub open spec fn family_head(name: Seq<char>, help: Seq<char>, kind: Seq<char>) -> Seq<Seq<char>> {
    seq!["# HELP "@ + name + " "@ + help, "# TYPE "@ + name + " "@ + kind]
}

/// A sample without labels.
pub open spec fn plain_sample(name: Seq<char>, value: Seq<char>) -> Seq<char> {
    name + " "@ + value
}

/// A sample with its labels, written without the braces.
pub open spec fn sample(name: Seq<char>, labels: Seq<char>, value: Seq<char>) -> Seq<char> {
    name + "{"@ + labels + "} "@ + value
}

/// A metric family of one sample without labels.
pub open spec fn scalar(
    name: Seq<char>,
    help: Seq<char>,
    kind: Seq<char>,
    value: Seq<char>,
) -> Seq<Seq<char>> {
    family_head(name, help, kind).push(plain_sample(name, value))
}

/// One label.
pub open spec fn label(key: Seq<char>, value: Seq<char>) -> Seq<char> {
    key + "=\""@ + value + "\""@
}

/// Two labels.
pub open spec fn labels2(
    key1: Seq<char>,
    value1: Seq<char>,
    key2: Seq<char>,
    value2: Seq<char>,
) -> Seq<char> {
    label(key1, value1) + ","@ + label(key2, value2)
}

/// One label.
pub fn label_text(key: &str, value: &str) -> (out: String)
    ensures
        out@ == label(key@, value@),
{
    let mut out = String::new();
    out.append(key);
    assert(out@ =~= key@);
    out.append("=\"");
    out.append(value);
    out.append("\"");
    out
}

/// Two labels.
pub fn labels2_text(key1: &str, value1: &str, key2: &str, value2: &str) -> (out: String)
    ensures
        out@ == labels2(key1@, value1@, key2@, value2@),
{
    let mut out = label_text(key1, value1);
    out.append(",");
    let second = label_text(key2, value2);
    out.append(second.as_str());
    out
}

/// A page under construction: its text, and the lines that the text holds.
pub struct Page {
    text: String,
    lines: Ghost<Seq<Seq<char>>>,
}

impl View for Page {
    type V = Seq<Seq<char>>;

    closed spec fn view(&self) -> Seq<Seq<char>> {
        self.lines@
    }
}

impl Page {
    /// The text is that of the lines.
    #[verifier::type_invariant]
    spec fn wf(self) -> bool {
        self.text@ == page_text(self.lines@)
    }

    /// An empty page.
    pub fn new() -> (page: Page)
        ensures
            page@ == Seq::<Seq<char>>::empty(),
    {
        let text = String::new();
        proof {
            assert(text@ =~= page_text(Seq::empty()));
        }
        Page { text, lines: Ghost(Seq::empty()) }
    }

    /// Adds one line.
    pub fn line(self, line: &str) -> (page: Page)
        ensures
            page@ == self@.push(line@),
    {
        proof {
            use_type_invariant(&self);
        }
        let ghost before = self.lines@;
        let Page { mut text, lines } = self;
        text.append(line);
        text.append("\n");
        proof {
            assert(before.push(line@).drop_last() =~= before);
        }
        Page { text, lines: Ghost(before.push(line@)) }
    }

    /// Opens a metric family.
    pub fn head(self, name: &str, help: &str, kind: &str) -> (page: Page)
        ensures
            page@ == self@ + family_head(name@, help@, kind@),
    {
        let ghost before = self@;
        let mut first = String::new();
        first.append("# HELP ");
        assert(first@ =~= "# HELP "@);
        first.append(name);
        first.append(" ");
        first.append(help);
        let mut second = String::new();
        second.append("# TYPE ");
        assert(second@ =~= "# TYPE "@);
        second.append(name);
        second.append(" ");
        second.append(kind);
        let page = self.line(first.as_str()).line(second.as_str());
        assert(page@ =~= before + family_head(name@, help@, kind@));
        page
    }

    /// Adds a sample without labels.
    pub fn plain(self, name: &str, value: &str) -> (page: Page)
        ensures
            page@ == self@.push(plain_sample(name@, value@)),
    {
        let mut line = String::new();
        line.append(name);
        assert(line@ =~= name@);
        line.append(" ");
        line.append(value);
        self.line(line.as_str())
    }

    /// Adds a metric family of one sample without labels.
    pub fn scalar(self, name: &str, help: &str, kind: &str, value: &str) -> (page: Page)
        ensures
            page@ == self@ + scalar(name@, help@, kind@, value@),
    {
        let ghost before = self@;
        let page = self.head(name, help, kind).plain(name, value);
        assert(page@ =~= before + scalar(name@, help@, kind@, value@));
        page
    }

    /// Adds a metric family of one sample without labels whose value is a number.
    pub fn scalar_number(self, name: &str, help: &str, kind: &str, value: u64) -> (page: Page)
        ensures
            page@ == self@ + scalar(name@, help@, kind@, decimal(value as nat)),
    {
        let text = decimal_of(value);
        self.scalar(name, help, kind, text.as_str())
    }

    /// Adds a sample with labels.
    pub fn labelled(self, name: &str, labels: &str, value: &str) -> (page: Page)
        ensures
            page@ == self@.push(sample(name@, labels@, value@)),
    {
        let mut line = String::new();
        line.append(name);
        assert(line@ =~= name@);
        line.append("{");
        line.append(labels);
        line.append("} ");
        line.append(value);
        self.line(line.as_str())
    }

    /// Adds a sample with labels whose value is a number.
    pub fn labelled_number(self, name: &str, labels: &str, value: u64) -> (page: Page)
        ensures
            page@ == self@.push(sample(name@, labels@, decimal(value as nat))),
    {
        let text = decimal_of(value);
        self.labelled(name, labels, text.as_str())
    }

    /// The finished text.
    pub fn finish(self) -> (out: String)
        ensures
            out@ == page_text(self@),
    {
        proof {
            use_type_invariant(&self);
        }
        self.text
    }
}

} // verus!
