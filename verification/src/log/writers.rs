use vstd::prelude::*;
use crate::log::level::Level;
use crate::log::event::{chrono_rfc3339, Event, Field};
use crate::log::json::{has_ordered_keys, keys_ordered};
use crate::log::pretty::{default_options, indent_fits, nesting_fits, value_text, Options, Pretty};
use crate::log::text::{
    decimal, decimal_reads_back, digits_value, push_char, push_two_digits, zero_padded,
    zero_padding_reads_back,
};

verus! {

/// Whether a writer whose most verbose level is `max` takes events of level `v`.
pub open spec fn admits(max: Level, v: Level) -> bool {
    v.spec_rank() <= max.spec_rank()
}

/// Law: a writer that takes a level takes every less verbose level, and every writer
/// takes fatal events.
pub proof fn writers_take_every_more_severe_level(max: Level, u: Level, v: Level)
    ensures
        admits(max, v) && u.spec_rank() <= v.spec_rank() ==> admits(max, u),
        admits(max, Level::Fatal),
{
}

/// Whether `v` is at most as verbose as `max`.
fn within(max: Level, v: Level) -> (r: bool)
    ensures
        r == admits(max, v),
{
    v.rank() <= max.rank()
}

/// The writers that an event goes to, given whether each writer takes it: the positions
/// of those that do, in order. The event is written at all exactly when some writer
/// takes it, that is when the result is not empty.
pub fn writers_to_run(takes: &Vec<bool>) -> (r: Vec<usize>)
    ensures
        forall|k: int| 0 <= k < r.len() ==> r@[k] < takes.len() && takes@[r@[k] as int],
        forall|k: int, l: int| 0 <= k < l < r.len() ==> r@[k] < r@[l],
        forall|i: int| 0 <= i < takes.len() && takes@[i] ==> r@.contains(i as usize),
        r.len() == 0 <==> forall|i: int| 0 <= i < takes.len() ==> !takes@[i],
{
    let mut r: Vec<usize> = Vec::new();
    let mut i: usize = 0;
    while i < takes.len()
        invariant
            i <= takes.len(),
            forall|k: int| 0 <= k < r.len() ==> r@[k] < i && takes@[r@[k] as int],
            forall|k: int, l: int| 0 <= k < l < r.len() ==> r@[k] < r@[l],
            forall|j: int| 0 <= j < i && takes@[j] ==> r@.contains(j as usize),
        decreases takes.len() - i,
    {
        if takes[i] {
            let ghost before = r@;
            r.push(i);
            assert forall|j: int| 0 <= j < i && takes@[j] implies r@.contains(j as usize) by {
                let k = choose|k: int| 0 <= k < before.len() && before[k] == j as usize;
                assert(r@[k] == j as usize);
            }
            assert(r@[r.len() - 1] == i);
        }
        i = i + 1;
    }
    proof {
        if r.len() > 0 {
            assert(takes@[r@[0] as int]);
        }
        if exists|i: int| 0 <= i < takes.len() && takes@[i] {
            let j = choose|i: int| 0 <= i < takes.len() && takes@[i];
            assert(r@.contains(j as usize));
        }
    }
    r
}

/// A writer that shows the message of each event it takes in a message box.
#[derive(Copy, Clone, Debug)]
pub struct Alert {
    max_verbosity: Level,
}

impl Alert {
    /// The most verbose level this writer takes.
    pub closed spec fn spec_max_verbosity(self) -> Level {
        self.max_verbosity
    }

    /// An alert writer for fatal events only.
    pub fn new() -> (r: Self)
        ensures
            r.spec_max_verbosity() == Level::Fatal,
    {
        Self { max_verbosity: Level::Fatal }
    }

    /// The same writer, taking events up to `verbosity`.
    pub fn max_verbosity(self, verbosity: Level) -> (r: Self)
        ensures
            r.spec_max_verbosity() == verbosity,
    {
        Self { max_verbosity: verbosity }
    }

    /// Whether this writer takes events of the given level.
    pub fn enabled_for(&self, verbosity: Level) -> (r: bool)
        ensures
            r == admits(self.spec_max_verbosity(), verbosity),
    {
        within(self.max_verbosity, verbosity)
    }

    /// The text the message box shows for an event: its message.
    pub fn text<'e>(&self, event: &'e Event) -> (r: &'e str)
        ensures
            r@ == event.message@,
    {
        event.message.as_str()
    }
}

/// The level tag that the console writes, coloured with ANSI escapes or plain.
pub open spec fn head_text(colored: bool, verbosity: Level) -> Seq<char> {
    if colored {
        match verbosity {
            Level::Fatal => "\x1b[1;31mFTL\x1b[0m"@,
            Level::Error => "\x1b[31mERR\x1b[0m"@,
            Level::Warn => "\x1b[33mWRN\x1b[0m"@,
            Level::Info => "\x1b[32mINF\x1b[0m"@,
            Level::Debug => "\x1b[36mDBG\x1b[0m"@,
        }
    } else {
        match verbosity {
            Level::Fatal => "FTL"@,
            Level::Error => "ERR"@,
            Level::Warn => "WRN"@,
            Level::Info => "INF"@,
            Level::Debug => "DBG"@,
        }
    }
}

/// The console lines of the fields of an event: `  <name> = <value>`, each value
/// pretty-printed at nesting level 2 with the default options.
pub open spec fn fields_text(fields: Seq<Field>) -> Seq<char>
    decreases fields.len(),
{
    if fields.len() == 0 {
        Seq::empty()
    } else {
        fields_text(fields.drop_last()) + seq![' ', ' '] + fields.last().name@ + seq![' ', '=', ' ']
            + value_text(2, fields.last().value, default_options()) + seq!['\n']
    }
}

/// Law: each field gets its own line, `  <name> = <value>`, whatever its value, with the
/// value pretty-printed at nesting level 2 with the default options.
pub proof fn each_field_gets_its_line(f: Field)
    ensures
        fields_text(seq![f]) == seq![' ', ' '] + f.name@ + seq![' ', '=', ' '] + value_text(
            2,
            f.value,
            default_options(),
        ) + seq!['\n'],
{
    assert(seq![f].drop_last() =~= Seq::<Field>::empty());
    assert(seq![f].last() == f);
    assert(fields_text(Seq::<Field>::empty()) =~= Seq::<char>::empty());
    assert(fields_text(seq![f]) =~= seq![' ', ' '] + f.name@ + seq![' ', '=', ' '] + value_text(
        2,
        f.value,
        default_options(),
    ) + seq!['\n']);
}

/// Law: the lines of the fields come in the order of the fields: the text of two runs of
/// fields one after the other is the text of the first run followed by that of the second.
pub proof fn field_lines_keep_the_order_of_fields(a: Seq<Field>, b: Seq<Field>)
    ensures
        fields_text(a + b) == fields_text(a) + fields_text(b),
    decreases b.len(),
{
    if b.len() == 0 {
        assert(a + b =~= a);
        assert(fields_text(a) + fields_text(b) =~= fields_text(a));
    } else {
        assert((a + b).drop_last() =~= a + b.drop_last());
        assert((a + b).last() == b.last());
        field_lines_keep_the_order_of_fields(a, b.drop_last());
        assert(fields_text(a + b) =~= fields_text(a) + fields_text(b));
    }
}

/// Law: the fields' text holds exactly one line per field, in order: it is the line of
/// the first field followed by the lines of the others.
pub proof fn field_lines_from_the_first(fields: Seq<Field>)
    requires
        fields.len() > 0,
    ensures
        fields_text(fields) == seq![' ', ' '] + fields[0].name@ + seq![' ', '=', ' '] + value_text(
            2,
            fields[0].value,
            default_options(),
        ) + seq!['\n'] + fields_text(fields.drop_first()),
{
    assert(fields =~= seq![fields[0]] + fields.drop_first());
    field_lines_keep_the_order_of_fields(seq![fields[0]], fields.drop_first());
    each_field_gets_its_line(fields[0]);
}

/// What the console writes for an event:
/// `<timestamp> <level> <module>[<thread id>]: <message>` and one line per field.
pub open spec fn console_text(colored: bool, event: Event) -> Seq<char> {
    chrono_rfc3339(event.timestamp.spec_secs(), event.timestamp.spec_nanos()) + seq![' ']
        + head_text(colored, event.verbosity) + seq![' '] + event.module@ + seq!['['] + zero_padded(
        event.thread_id as nat,
        2,
    ) + seq![']', ':', ' '] + event.message@ + seq!['\n'] + fields_text(event.fields@)
}

/// Law: the console tells the levels apart: distinct levels get distinct tags, three
/// characters each when plain, and the coloured tag is the plain one between an ANSI
/// colour escape and the reset escape.
pub proof fn level_tags_tell_levels_apart(v: Level, w: Level)
    ensures
        head_text(false, v).len() == 3,
        v != w ==> head_text(false, v) != head_text(false, w),
        exists|p: Seq<char>|
            #![trigger p + head_text(false, v)]
            p.len() > 0 && p[0] == '\x1b' && head_text(true, v) == p + head_text(false, v)
                + "\x1b[0m"@,
{
    reveal_strlit("FTL");
    reveal_strlit("ERR");
    reveal_strlit("WRN");
    reveal_strlit("INF");
    reveal_strlit("DBG");
    reveal_strlit("\x1b[0m");
    reveal_strlit("\x1b[1;31mFTL\x1b[0m");
    reveal_strlit("\x1b[31mERR\x1b[0m");
    reveal_strlit("\x1b[33mWRN\x1b[0m");
    reveal_strlit("\x1b[32mINF\x1b[0m");
    reveal_strlit("\x1b[36mDBG\x1b[0m");
    if v != w {
        assert(head_text(false, v)[0] != head_text(false, w)[0] || head_text(false, v)[1]
            != head_text(false, w)[1]);
    }
    let p = match v {
        Level::Fatal => seq!['\x1b', '[', '1', ';', '3', '1', 'm'],
        Level::Error => seq!['\x1b', '[', '3', '1', 'm'],
        Level::Warn => seq!['\x1b', '[', '3', '3', 'm'],
        Level::Info => seq!['\x1b', '[', '3', '2', 'm'],
        Level::Debug => seq!['\x1b', '[', '3', '6', 'm'],
    };
    assert(head_text(true, v) =~= p + head_text(false, v) + "\x1b[0m"@);
}

/// Law: the console line of an event is its time, level tag, module, thread id, message and
/// fields, in this order; the thread id is written in decimal digits that read back as the
/// id, two of them for an id below 100, and without leading zeros beyond those two.
pub proof fn console_line_layout(colored: bool, event: Event)
    ensures
        exists|t: Seq<char>|
            #![trigger digits_value(t)]
            {
                &&& console_text(colored, event) == chrono_rfc3339(
                    event.timestamp.spec_secs(),
                    event.timestamp.spec_nanos(),
                ) + seq![' '] + head_text(colored, event.verbosity) + seq![' '] + event.module@
                    + seq!['['] + t + seq![']', ':', ' '] + event.message@ + seq!['\n']
                    + fields_text(event.fields@)
                &&& forall|i: int| 0 <= i < t.len() ==> '0' <= #[trigger] t[i] <= '9'
                &&& digits_value(t) == event.thread_id
                &&& event.thread_id < 100 ==> t.len() == 2
                &&& t.len() > 2 ==> t[0] != '0'
            },
{
    let n = event.thread_id as nat;
    let t = zero_padded(n, 2);
    zero_padding_reads_back(n, 2);
    decimal_reads_back(n);
    let d = decimal(n);
    if n >= 10 {
        assert(decimal(n / 10).len() >= 1);
        if n < 100 {
            assert(n / 10 < 10);
            assert(decimal(n / 10).len() == 1);
        }
    }
    if d.len() < 2 {
        assert forall|i: int| 0 <= i < t.len() implies '0' <= #[trigger] t[i] <= '9' by {
            if i < 2 - d.len() {
                assert(t[i] == '0');
            } else {
                assert(t[i] == d[i - (2 - d.len())]);
            }
        }
    } else {
        assert(t == d);
        if d.len() > 2 && d[0] == '0' {
            assert(n == 0);
        }
    }
    assert(digits_value(t) == event.thread_id);
}

/// Whether every field value of an event can be printed at nesting level 2: a value of
/// the JSON data model (its objects' keys in order) whose nesting stays within `usize`.
pub open spec fn fields_fit(fields: Seq<Field>) -> bool {
    forall|i: int|
        0 <= i < fields.len() ==> indent_fits(2, #[trigger] fields[i].value) && keys_ordered(
            fields[i].value,
        )
}

/// Whether every field value of an event can be printed at nesting level 2.
pub fn fields_fit_check(fields: &Vec<Field>) -> (r: bool)
    ensures
        r == fields_fit(fields@),
{
    let mut i: usize = 0;
    while i < fields.len()
        invariant
            i <= fields.len(),
            forall|j: int|
                0 <= j < i ==> indent_fits(2, #[trigger] fields@[j].value) && keys_ordered(
                    fields@[j].value,
                ),
        decreases fields.len() - i,
    {
        if !nesting_fits(2, &fields[i].value) || !has_ordered_keys(&fields[i].value) {
            return false;
        }
        i = i + 1;
    }
    true
}

/// A writer that prints each event it takes on the console.
#[derive(Copy, Clone, Debug)]
pub struct Console {
    max_verbosity: Level,
    colored: bool,
}

impl Console {
    /// The most verbose level this writer takes.
    pub closed spec fn spec_max_verbosity(self) -> Level {
        self.max_verbosity
    }

    /// Whether the level tag is coloured.
    pub closed spec fn spec_colored(self) -> bool {
        self.colored
    }

    /// A coloured console writer for events up to `Info`.
    pub fn new() -> (r: Self)
        ensures
            r.spec_max_verbosity() == Level::Info,
            r.spec_colored(),
    {
        Self { max_verbosity: Level::Info, colored: true }
    }

    /// The same writer, taking events up to `verbosity`.
    pub fn max_verbosity(self, verbosity: Level) -> (r: Self)
        ensures
            r.spec_max_verbosity() == verbosity,
            r.spec_colored() == self.spec_colored(),
    {
        Self { max_verbosity: verbosity, colored: self.colored }
    }

    /// The same writer, with the level tag coloured or not.
    pub fn colored(self, colored: bool) -> (r: Self)
        ensures
            r.spec_max_verbosity() == self.spec_max_verbosity(),
            r.spec_colored() == colored,
    {
        Self { max_verbosity: self.max_verbosity, colored }
    }

    /// The level tag for an event of the given level.
    pub fn head(&self, verbosity: Level) -> (r: &'static str)
        ensures
            r@ == head_text(self.spec_colored(), verbosity),
    {
        if self.colored {
            match verbosity {
                Level::Fatal => "\x1b[1;31mFTL\x1b[0m",
                Level::Error => "\x1b[31mERR\x1b[0m",
                Level::Warn => "\x1b[33mWRN\x1b[0m",
                Level::Info => "\x1b[32mINF\x1b[0m",
                Level::Debug => "\x1b[36mDBG\x1b[0m",
            }
        } else {
            match verbosity {
                Level::Fatal => "FTL",
                Level::Error => "ERR",
                Level::Warn => "WRN",
                Level::Info => "INF",
                Level::Debug => "DBG",
            }
        }
    }

    /// Whether this writer takes events of the given level.
    pub fn enabled_for(&self, verbosity: Level) -> (r: bool)
        ensures
            r == admits(self.spec_max_verbosity(), verbosity),
    {
        within(self.max_verbosity, verbosity)
    }

    /// The text this writer prints for an event, every line ended by `\n`.
    pub fn render(&self, event: &Event) -> (r: String)
        requires
            fields_fit(event.fields@),
        ensures
            r@ == console_text(self.spec_colored(), *event),
    {
        let mut out = event.timestamp.rfc3339();
        push_char(&mut out, ' ');
        out.append(self.head(event.verbosity));
        push_char(&mut out, ' ');
        out.append(event.module);
        push_char(&mut out, '[');
        push_two_digits(&mut out, event.thread_id as u64);
        push_char(&mut out, ']');
        push_char(&mut out, ':');
        push_char(&mut out, ' ');
        out.append(event.message.as_str());
        push_char(&mut out, '\n');
        let ghost head = out@;
        let fields = &event.fields;
        let mut i: usize = 0;
        while i < fields.len()
            invariant
                i <= fields.len(),
                fields_fit(fields@),
                out@ == head + fields_text(fields@.take(i as int)),
            decreases fields.len() - i,
        {
            let ghost before = out@;
            let field = &fields[i];
            push_char(&mut out, ' ');
            push_char(&mut out, ' ');
            out.append(field.name);
            push_char(&mut out, ' ');
            push_char(&mut out, '=');
            push_char(&mut out, ' ');
            assert(indent_fits(2, fields@[i as int].value) && keys_ordered(fields@[i as int].value));
            let pretty = Pretty::new(2, &field.value, Options::default());
            pretty.fmt(&mut out);
            push_char(&mut out, '\n');
            assert(fields@.take(i + 1).drop_last() =~= fields@.take(i as int));
            i = i + 1;
        }
        assert(fields@.take(fields.len() as int) =~= fields@);
        out
    }
}

/// A writer that appends each event it takes to a file as one line of JSON.
pub struct Json<W> {
    max_verbosity: Level,
    file: W,
}

impl<W> Json<W> {
    /// The most verbose level this writer takes.
    pub closed spec fn spec_max_verbosity(self) -> Level {
        self.max_verbosity
    }

    /// The file this writer appends to.
    pub closed spec fn spec_file(self) -> W {
        self.file
    }

    /// A JSON writer into `file` for events up to `Info`.
    pub fn new(file: W) -> (r: Self)
        ensures
            r.spec_max_verbosity() == Level::Info,
            r.spec_file() == file,
    {
        Self { max_verbosity: Level::Info, file }
    }

    /// The same writer, taking events up to `max_verbosity`.
    pub fn max_verbosity(self, max_verbosity: Level) -> (r: Self)
        ensures
            r.spec_max_verbosity() == max_verbosity,
            r.spec_file() == self.spec_file(),
    {
        Self { max_verbosity, file: self.file }
    }

    /// Whether this writer takes events of the given level.
    pub fn enabled_for(&self, verbosity: Level) -> (r: bool)
        ensures
            r == admits(self.spec_max_verbosity(), verbosity),
    {
        within(self.max_verbosity, verbosity)
    }

    /// The file this writer appends to.
    pub fn file(&self) -> (r: &W)
        ensures
            *r == self.spec_file(),
    {
        &self.file
    }

    /// The file this writer appends to, to write into.
    pub fn file_mut(&mut self) -> (r: &mut W)
        ensures
            *r == old(self).spec_file(),
            final(self).spec_file() == *final(r),
            final(self).spec_max_verbosity() == old(self).spec_max_verbosity(),
    {
        &mut self.file
    }

    /// Whether this writer records an event: not when it comes from the writer's own
    /// module, whose failure reports would otherwise feed back into the writer.
    pub fn records(&self, event: &Event, own_module: &str) -> (r: bool)
        ensures
            r == (event.module@ != own_module@),
    {
        let module = event.module.to_owned();
        let own = own_module.to_owned();
        !(module == own)
    }
}

} // verus!
