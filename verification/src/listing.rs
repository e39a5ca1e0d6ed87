//! The listing of silos: how a silo is shown, in which order, and how the
//! columns line up.

use vstd::prelude::*;
use vstd::string::StringExecFns;
use vstd::utf8::encode_utf8;
use crate::color::{colored, green_positive, red_negative, yellow_uncommitted, YELLOW, GREEN, RED};
use crate::git::{capped, UncommittedStats};
use crate::numbers::{decimal, push_decimal};
use crate::names::as_ints;
use crate::order::{in_text_order, largest_first, order_by_text, order_largest_first};
use crate::silo::Silo;
use crate::text::{concat_str, join, join_with, push_str, str_eq};

verus! {

/// The first three of a list of files, with the number of the others.
pub open spec fn listed_files(files: Seq<Seq<char>>, short: bool) -> Seq<char> {
    if files.len() <= 3 {
        join_with(files, ", "@)
    } else {
        join_with(files.take(3), ", "@) + (if short {
            ", +"@
        } else {
            ", ... and "@
        }) + decimal((files.len() - 3) as nat) + " more"@
    }
}

/// Whether nothing is uncommitted.
pub open spec fn nothing_in(stats: UncommittedStats) -> bool {
    stats.staged == 0 && stats.modified == 0 && stats.untracked == 0
}

/// The number of files with uncommitted changes.
pub open spec fn total_of(stats: UncommittedStats) -> u32 {
    capped((stats.staged + stats.modified + stats.untracked) as nat)
}

/// The uncommitted changes of a silo in a column of the table.
pub open spec fn uncommitted_short(stats: UncommittedStats, files: Seq<Seq<char>>, use_color: bool) -> Seq<
    char,
> {
    if nothing_in(stats) {
        Seq::<char>::empty()
    } else {
        colored('~', total_of(stats), YELLOW@, use_color) + " files: "@ + listed_files(files, true)
    }
}

/// The uncommitted changes of a silo at the end of a plain line.
pub open spec fn uncommitted_long(stats: UncommittedStats, files: Seq<Seq<char>>, use_color: bool) -> Seq<
    char,
> {
    if nothing_in(stats) {
        Seq::<char>::empty()
    } else {
        ", "@ + colored('~', total_of(stats), YELLOW@, use_color) + " uncommitted files: "@
            + listed_files(files, false)
    }
}

fn file_list(files: &Vec<String>, short: bool) -> (out: String)
    ensures
        out@ == listed_files(files.deep_view(), short),
{
    if files.len() <= 3 {
        return join(files, ", ");
    }
    let mut shown: Vec<String> = Vec::new();
    push_str(&mut shown, files[0].as_str());
    push_str(&mut shown, files[1].as_str());
    push_str(&mut shown, files[2].as_str());
    assert(shown.deep_view() =~= files.deep_view().take(3));
    let mut out = join(&shown, ", ");
    if short {
        out.append(", +");
    } else {
        out.append(", ... and ");
    }
    push_decimal(&mut out, (files.len() - 3) as u64);
    out.append(" more");
    out
}

/// The uncommitted changes of a silo, for a column of the table: the number
/// of files and the names of the first three. `files` are the names that
/// git reports. Nothing for a clean silo.
pub fn format_uncommitted_short(uncommitted: &UncommittedStats, files: &Vec<String>, use_color: bool) -> (out:
    String)
    ensures
        out@ == uncommitted_short(*uncommitted, files.deep_view(), use_color),
{
    if uncommitted.is_clean() {
        return String::new();
    }
    let mut out = yellow_uncommitted(uncommitted.total(), use_color);
    out.append(" files: ");
    let list = file_list(files, true);
    out.append(list.as_str());
    out
}

/// The uncommitted changes of a silo, for the end of a plain line, comma
/// first. Nothing for a clean silo.
pub fn format_uncommitted_with_files(
    uncommitted: &UncommittedStats,
    files: &Vec<String>,
    use_color: bool,
) -> (out: String)
    ensures
        out@ == uncommitted_long(*uncommitted, files.deep_view(), use_color),
{
    if uncommitted.is_clean() {
        return String::new();
    }
    let mut out = String::from_str(", ");
    let count = yellow_uncommitted(uncommitted.total(), use_color);
    out.append(count.as_str());
    out.append(" uncommitted files: ");
    let list = file_list(files, false);
    out.append(list.as_str());
    out
}

/// The escape sequence for bold magenta.
pub const BOLD_MAGENTA: &'static str = "\x1b[1;35m";

/// The number of processes that run in a silo, in words.
pub open spec fn process_text(count: nat, use_color: bool) -> Seq<char> {
    if count == 0 {
        Seq::<char>::empty()
    } else {
        (if use_color {
            BOLD_MAGENTA@ + decimal(count) + crate::color::RESET@
        } else {
            decimal(count)
        }) + " "@ + (if count == 1 {
            "process"@
        } else {
            "processes"@
        })
    }
}

/// The number of processes that run in a silo; nothing where none runs.
pub fn format_process_count(count: usize, use_color: bool) -> (out: String)
    ensures
        out@ == process_text(count as nat, use_color),
{
    if count == 0 {
        return String::new();
    }
    let mut out = String::new();
    if use_color {
        out.append(BOLD_MAGENTA);
    }
    push_decimal(&mut out, count as u64);
    if use_color {
        out.append(crate::color::RESET);
    }
    out.append(" ");
    if count == 1 {
        out.append("process");
    } else {
        out.append("processes");
    }
    out
}

/// The two parts of a suffix with a comma between them; one part alone
/// where the other is empty. Where `lead` is set, a part that follows
/// nothing gets the comma all the same.
pub open spec fn suffix_of(uncommitted: Seq<char>, process: Seq<char>, lead: bool) -> Seq<char> {
    if process.len() == 0 {
        uncommitted
    } else if uncommitted.len() == 0 {
        if lead {
            ", "@ + process
        } else {
            process
        }
    } else {
        uncommitted + ", "@ + process
    }
}

/// What stands in the last column of the table: the uncommitted changes and
/// the processes.
pub fn format_suffix(uncommitted: &str, process: &str) -> (out: String)
    ensures
        out@ == suffix_of(uncommitted@, process@, false),
{
    if process.unicode_len() == 0 {
        String::from_str(uncommitted)
    } else if uncommitted.unicode_len() == 0 {
        String::from_str(process)
    } else {
        let mut out = concat_str(uncommitted, ", ");
        out.append(process);
        out
    }
}

/// What stands at the end of a plain line: the uncommitted changes, which
/// bring their comma along, and the processes behind a comma.
pub fn plain_suffix(uncommitted: &str, process: &str) -> (out: String)
    ensures
        out@ == suffix_of(uncommitted@, process@, true),
{
    if process.unicode_len() == 0 {
        String::from_str(uncommitted)
    } else if uncommitted.unicode_len() == 0 {
        concat_str(", ", process)
    } else {
        let mut out = concat_str(uncommitted, ", ");
        out.append(process);
        out
    }
}

/// What is shown of one silo.
#[derive(Debug, Clone)]
pub struct SiloDisplayInfo {
    pub display_name: String,
    pub branch: String,
    /// How many commits the silo is ahead of the main branch, and behind.
    pub ahead: u32,
    pub behind: u32,
    /// How many lines the silo adds to the main branch, and removes.
    pub added: u32,
    pub removed: u32,
    pub uncommitted: UncommittedStats,
    /// The files with uncommitted changes.
    pub files: Vec<String>,
    pub process_count: usize,
    /// Whether the current directory lies in the silo.
    pub is_current: bool,
}

/// How far ahead each silo is.
pub open spec fn aheads(rows: Seq<SiloDisplayInfo>) -> Seq<u32> {
    Seq::new(rows.len(), |i: int| rows[i].ahead)
}

/// The order in which the silos are listed: those furthest ahead first,
/// silos equally far ahead in the order in which they came.
pub open spec fn ordered(rows: Seq<SiloDisplayInfo>) -> Seq<int> {
    largest_first(aheads(rows), rows.len() as int)
}

/// The order in which the silos are listed.
pub fn order_by_ahead(rows: &Vec<SiloDisplayInfo>) -> (order: Vec<usize>)
    ensures
        as_ints(order@) == ordered(rows@),
        order@.len() == rows@.len(),
        forall|k: int| 0 <= k < order@.len() ==> order@[k] < rows@.len(),
{
    let mut keys: Vec<u32> = Vec::new();
    let mut i: usize = 0;
    while i < rows.len()
        invariant
            i <= rows.len(),
            keys@ == aheads(rows@).take(i as int),
        decreases rows.len() - i,
    {
        keys.push(rows[i].ahead);
        assert(keys@ =~= aheads(rows@).take(i + 1));
        i += 1;
    }
    assert(keys@ =~= aheads(rows@));
    order_largest_first(&keys)
}

/// `n` blanks.
pub open spec fn blanks(n: int) -> Seq<char> {
    Seq::new(
        if n > 0 {
            n as nat
        } else {
            0
        },
        |i: int| ' ',
    )
}

/// A text with blanks behind it up to `width` characters.
pub open spec fn padded(text: Seq<char>, width: int) -> Seq<char> {
    text + blanks(width - text.len())
}

/// How many bytes a text takes.
pub open spec fn byte_len(text: Seq<char>) -> nat {
    encode_utf8(text).len()
}

fn push_blanks(out: &mut String, n: usize)
    ensures
        final(out)@ == old(out)@ + blanks(n as int),
{
    let mut k: usize = 0;
    while k < n
        invariant
            k <= n,
            out@ == old(out)@ + blanks(k as int),
        decreases n - k,
    {
        out.push(' ');
        k += 1;
    }
}

fn push_padded(out: &mut String, text: &str, width: usize)
    ensures
        final(out)@ == old(out)@ + padded(text@, width as int),
{
    out.append(text);
    let used = text.unicode_len();
    if used < width {
        push_blanks(out, width - used);
    }
}

/// The width of a column: the bytes of its longest entry among the first
/// `upto` silos, and no less than `floor`.
pub open spec fn column_width(rows: Seq<SiloDisplayInfo>, names: bool, floor: nat, upto: int) -> nat
    decreases upto,
{
    if upto <= 0 {
        floor
    } else {
        let before = column_width(rows, names, floor, upto - 1);
        let here = byte_len(
            if names {
                rows[upto - 1].display_name@
            } else {
                rows[upto - 1].branch@
            },
        );
        if here > before {
            here
        } else {
            before
        }
    }
}

fn width_of(rows: &Vec<SiloDisplayInfo>, names: bool, floor: usize) -> (width: usize)
    ensures
        width == column_width(rows@, names, floor as nat, rows@.len() as int),
{
    let mut width: usize = floor;
    let mut i: usize = 0;
    while i < rows.len()
        invariant
            i <= rows.len(),
            width == column_width(rows@, names, floor as nat, i as int),
        decreases rows.len() - i,
    {
        let here = if names {
            rows[i].display_name.as_str().as_bytes().len()
        } else {
            rows[i].branch.as_str().as_bytes().len()
        };
        if here > width {
            width = here;
        }
        i += 1;
    }
    width
}

/// The larger of two numbers.
pub open spec fn larger(a: nat, b: nat) -> nat {
    if a >= b {
        a
    } else {
        b
    }
}

/// The mark in front of a line: a star for where the user is.
pub open spec fn marker(current: bool) -> Seq<char> {
    if current {
        "*"@
    } else {
        " "@
    }
}

/// Two counts side by side, what was gained in green and what was lost in
/// red.
pub open spec fn gain_loss(gain: u32, loss: u32, use_color: bool) -> Seq<char> {
    colored('+', gain, GREEN@, use_color) + " "@ + colored('-', loss, RED@, use_color)
}

/// The blanks that bring two counts to `width` characters, whatever the
/// colour adds.
pub open spec fn count_gap(gain: u32, loss: u32, width: int) -> Seq<char> {
    blanks(width - (decimal(gain as nat).len() + decimal(loss as nat).len() + 3))
}

/// What stands in the last column for a silo.
pub open spec fn table_suffix(row: SiloDisplayInfo, use_color: bool) -> Seq<char> {
    suffix_of(
        uncommitted_short(row.uncommitted, row.files.deep_view(), use_color),
        process_text(row.process_count as nat, use_color),
        false,
    )
}

/// The head of the table.
pub open spec fn header_line(name_width: int, branch_width: int) -> Seq<char> {
    "  "@ + padded("NAME"@, name_width) + "  "@ + padded("BRANCH"@, branch_width)
        + "       COMMITS           LINES  UNCOMMITTED"@
}

/// The line of a silo in the table.
pub open spec fn table_line(row: SiloDisplayInfo, name_width: int, branch_width: int, use_color: bool) -> Seq<
    char,
> {
    marker(row.is_current) + " "@ + padded(row.display_name@, name_width) + "  "@ + padded(
        row.branch@,
        branch_width,
    ) + "  "@ + count_gap(row.ahead, row.behind, 12) + gain_loss(row.ahead, row.behind, use_color)
        + "  "@ + count_gap(row.added, row.removed, 14) + gain_loss(
        row.added,
        row.removed,
        use_color,
    ) + "  "@ + table_suffix(row, use_color)
}

/// The line of a silo where the output is no terminal.
pub open spec fn plain_line(row: SiloDisplayInfo, use_color: bool) -> Seq<char> {
    marker(row.is_current) + " "@ + row.display_name@ + " ("@ + row.branch@ + ")  "@ + gain_loss(
        row.ahead,
        row.behind,
        use_color,
    ) + " commits, "@ + gain_loss(row.added, row.removed, use_color) + " lines"@ + suffix_of(
        uncommitted_long(row.uncommitted, row.files.deep_view(), use_color),
        process_text(row.process_count as nat, use_color),
        true,
    )
}

fn push_marker(out: &mut String, current: bool)
    ensures
        final(out)@ == old(out)@ + marker(current),
{
    if current {
        out.append("*");
    } else {
        out.append(" ");
    }
}

fn push_counts(out: &mut String, gain: u32, loss: u32, use_color: bool)
    ensures
        final(out)@ == old(out)@ + gain_loss(gain, loss, use_color),
{
    let first = green_positive(gain, use_color);
    let second = red_negative(loss, use_color);
    out.append(first.as_str());
    out.append(" ");
    out.append(second.as_str());
}

fn push_gap(out: &mut String, gain: u32, loss: u32, width: usize)
    ensures
        final(out)@ == old(out)@ + count_gap(gain, loss, width as int),
{
    let first = crate::numbers::decimal_string(gain as u64);
    let second = crate::numbers::decimal_string(loss as u64);
    let a = first.as_str().unicode_len();
    let b = second.as_str().unicode_len();
    proof {
        lemma_decimal_short(gain as nat);
        lemma_decimal_short(loss as nat);
    }
    let seen: usize = a + b + 3;
    if seen < width {
        push_blanks(out, width - seen);
    }
}

/// A numeral of a 64-bit number has at most twenty digits.
pub proof fn lemma_decimal_short(n: nat)
    requires
        n <= u64::MAX,
    ensures
        1 <= decimal(n).len() <= 20,
{
    reveal_with_fuel(decimal, 21);
}

/// The line of a silo in the table.
pub fn format_table_line(row: &SiloDisplayInfo, name_width: usize, branch_width: usize, use_color: bool) -> (out:
    String)
    ensures
        out@ == table_line(*row, name_width as int, branch_width as int, use_color),
{
    let mut out = String::new();
    push_marker(&mut out, row.is_current);
    out.append(" ");
    push_padded(&mut out, row.display_name.as_str(), name_width);
    out.append("  ");
    push_padded(&mut out, row.branch.as_str(), branch_width);
    out.append("  ");
    push_gap(&mut out, row.ahead, row.behind, 12);
    push_counts(&mut out, row.ahead, row.behind, use_color);
    out.append("  ");
    push_gap(&mut out, row.added, row.removed, 14);
    push_counts(&mut out, row.added, row.removed, use_color);
    out.append("  ");
    let uncommitted = format_uncommitted_short(&row.uncommitted, &row.files, use_color);
    let process = format_process_count(row.process_count, use_color);
    let suffix = format_suffix(uncommitted.as_str(), process.as_str());
    out.append(suffix.as_str());
    out
}

/// The line of a silo where the output is no terminal.
pub fn format_plain_line(row: &SiloDisplayInfo, use_color: bool) -> (out: String)
    ensures
        out@ == plain_line(*row, use_color),
{
    let mut out = String::new();
    push_marker(&mut out, row.is_current);
    out.append(" ");
    out.append(row.display_name.as_str());
    out.append(" (");
    out.append(row.branch.as_str());
    out.append(")  ");
    push_counts(&mut out, row.ahead, row.behind, use_color);
    out.append(" commits, ");
    push_counts(&mut out, row.added, row.removed, use_color);
    out.append(" lines");
    let uncommitted = format_uncommitted_with_files(&row.uncommitted, &row.files, use_color);
    let process = format_process_count(row.process_count, use_color);
    let suffix = plain_suffix(uncommitted.as_str(), process.as_str());
    out.append(suffix.as_str());
    out
}

/// The head of the table.
pub fn format_header(name_width: usize, branch_width: usize) -> (out: String)
    ensures
        out@ == header_line(name_width as int, branch_width as int),
{
    let mut out = String::from_str("  ");
    push_padded(&mut out, "NAME", name_width);
    out.append("  ");
    push_padded(&mut out, "BRANCH", branch_width);
    out.append("       COMMITS           LINES  UNCOMMITTED");
    out
}

/// The lines of the silos in the order `order`.
pub open spec fn silo_lines(
    rows: Seq<SiloDisplayInfo>,
    order: Seq<int>,
    name_width: int,
    branch_width: int,
    use_color: bool,
    is_tty: bool,
) -> Seq<Seq<char>> {
    Seq::new(
        order.len(),
        |k: int|
            if is_tty {
                table_line(rows[order[k]], name_width, branch_width, use_color)
            } else {
                plain_line(rows[order[k]], use_color)
            },
    )
}

fn push_silo_lines(
    out: &mut Vec<String>,
    rows: &Vec<SiloDisplayInfo>,
    name_width: usize,
    branch_width: usize,
    use_color: bool,
    is_tty: bool,
)
    ensures
        final(out).deep_view() == old(out).deep_view() + silo_lines(
            rows@,
            ordered(rows@),
            name_width as int,
            branch_width as int,
            use_color,
            is_tty,
        ),
{
    let order = order_by_ahead(rows);
    let ghost wanted = silo_lines(
        rows@,
        ordered(rows@),
        name_width as int,
        branch_width as int,
        use_color,
        is_tty,
    );
    let ghost start = out.deep_view();
    let mut k: usize = 0;
    while k < order.len()
        invariant
            k <= order.len(),
            order@.len() == rows@.len(),
            as_ints(order@) == ordered(rows@),
            forall|j: int| 0 <= j < order@.len() ==> order@[j] < rows@.len(),
            wanted == silo_lines(
                rows@,
                ordered(rows@),
                name_width as int,
                branch_width as int,
                use_color,
                is_tty,
            ),
            out.deep_view() == start + wanted.take(k as int),
        decreases order.len() - k,
    {
        let row = &rows[order[k]];
        let line = if is_tty {
            format_table_line(row, name_width, branch_width, use_color)
        } else {
            format_plain_line(row, use_color)
        };
        push_str(out, line.as_str());
        k += 1;
    }
}

/// The line of the main worktree in the listing of one repository.
pub open spec fn main_line(main_branch: Seq<char>, current: bool, name_width: int, branch_width: int, is_tty: bool) -> Seq<
    char,
> {
    if is_tty {
        marker(current) + " "@ + padded(main_branch, name_width) + "  "@ + padded(
            main_branch,
            branch_width,
        ) + "  (main)"@
    } else {
        marker(current) + " "@ + main_branch + " ("@ + main_branch + ")  (main)"@
    }
}

/// The listing of one repository: at a terminal a table with its head, the
/// main worktree and the silos, columns lined up; elsewhere one plain line
/// for the main worktree and one for each silo.
pub open spec fn repo_listing(
    main_branch: Seq<char>,
    current_main: bool,
    rows: Seq<SiloDisplayInfo>,
    use_color: bool,
    is_tty: bool,
) -> Seq<Seq<char>> {
    let name_width = column_width(
        rows,
        true,
        larger(byte_len(main_branch), 4),
        rows.len() as int,
    ) as int;
    let branch_width = column_width(
        rows,
        false,
        larger(byte_len(main_branch), 6),
        rows.len() as int,
    ) as int;
    (if is_tty {
        seq![header_line(name_width, branch_width)]
    } else {
        Seq::<Seq<char>>::empty()
    }) + seq![main_line(main_branch, current_main, name_width, branch_width, is_tty)] + silo_lines(
        rows,
        ordered(rows),
        name_width,
        branch_width,
        use_color,
        is_tty,
    )
}

/// The listing of the silos of one repository, line by line.
///
/// `main_branch` is the branch of the main worktree and `current_main`
/// says whether the user is there. The silos come in the order of the
/// commits they are ahead, the furthest first.
pub fn run_repo(
    main_branch: &str,
    current_main: bool,
    rows: &Vec<SiloDisplayInfo>,
    use_color: bool,
    is_tty: bool,
) -> (out: Vec<String>)
    ensures
        out.deep_view() == repo_listing(main_branch@, current_main, rows@, use_color, is_tty),
{
    let main_len = main_branch.as_bytes().len();
    let name_floor: usize = if main_len >= 4 {
        main_len
    } else {
        4
    };
    let branch_floor: usize = if main_len >= 6 {
        main_len
    } else {
        6
    };
    let name_width = width_of(rows, true, name_floor);
    let branch_width = width_of(rows, false, branch_floor);
    let mut out: Vec<String> = Vec::new();
    if is_tty {
        let header = format_header(name_width, branch_width);
        push_str(&mut out, header.as_str());
    }
    let mut line = String::new();
    push_marker(&mut line, current_main);
    line.append(" ");
    if is_tty {
        push_padded(&mut line, main_branch, name_width);
        line.append("  ");
        push_padded(&mut line, main_branch, branch_width);
        line.append("  (main)");
    } else {
        line.append(main_branch);
        line.append(" (");
        line.append(main_branch);
        line.append(")  (main)");
    }
    push_str(&mut out, line.as_str());
    push_silo_lines(&mut out, rows, name_width, branch_width, use_color, is_tty);
    out
}

/// Whether all repositories are listed: where that is asked for, and
/// outside a repository.
pub fn run(all: bool, in_repo: bool) -> (list_all: bool)
    ensures
        list_all == (all || !in_repo),
{
    all || !in_repo
}

/// The silos of one repository, as they are listed among all.
#[derive(Debug, Clone)]
pub struct RepoGroup {
    pub repo_name: String,
    /// The path of the main worktree.
    pub main_worktree: String,
    /// The branch of the main worktree.
    pub main_branch: String,
    /// Whether the current directory lies in the main worktree.
    pub current_main: bool,
    /// The silos, each shown under the repository's name and its own.
    pub rows: Vec<SiloDisplayInfo>,
}

/// The repository of the silo at `at` is that of an earlier silo.
pub open spec fn seen_before(silos: Seq<Silo>, at: int) -> bool {
    exists|j: int| 0 <= j < at && #[trigger] silos[j].main_worktree@ == silos[at].main_worktree@
}

/// The first silo of every repository among the first `upto` silos, in the
/// order in which the repositories come up.
pub open spec fn repo_heads(silos: Seq<Silo>, upto: int) -> Seq<int>
    decreases upto,
{
    if upto <= 0 {
        Seq::<int>::empty()
    } else if seen_before(silos, upto - 1) {
        repo_heads(silos, upto - 1)
    } else {
        repo_heads(silos, upto - 1).push(upto - 1)
    }
}

/// The names of the repositories of the silos at `heads`.
pub open spec fn head_names(silos: Seq<Silo>, heads: Seq<int>) -> Seq<Seq<char>> {
    Seq::new(heads.len(), |k: int| silos[heads[k]].repo_name@)
}

/// The repositories of the silos, each by the position of its first silo, in
/// the order of their names; repositories of one name in the order in which
/// they come up.
pub open spec fn repos_in_order(silos: Seq<Silo>) -> Seq<int> {
    let heads = repo_heads(silos, silos.len() as int);
    let order = in_text_order(head_names(silos, heads), heads.len() as int);
    Seq::new(order.len(), |k: int| heads[order[k]])
}

/// The silos of the repository of the silo at `head`, among the first
/// `upto`.
pub open spec fn members(silos: Seq<Silo>, head: int, upto: int) -> Seq<int>
    decreases upto,
{
    if upto <= 0 {
        Seq::<int>::empty()
    } else if silos[upto - 1].main_worktree@ == silos[head].main_worktree@ {
        members(silos, head, upto - 1).push(upto - 1)
    } else {
        members(silos, head, upto - 1)
    }
}

/// The repositories of the silos in the order in which they are listed:
/// for each the positions of its silos, in the order of `silos`.
pub open spec fn grouped(silos: Seq<Silo>) -> Seq<Seq<int>> {
    Seq::new(
        repos_in_order(silos).len(),
        |k: int| members(silos, repos_in_order(silos)[k], silos.len() as int),
    )
}

/// The positions of a list of lists, as integers.
pub open spec fn as_int_lists(groups: Seq<Vec<usize>>) -> Seq<Seq<int>> {
    Seq::new(groups.len(), |k: int| as_ints(groups[k]@))
}

fn heads_of(silos: &[Silo]) -> (heads: Vec<usize>)
    ensures
        as_ints(heads@) == repo_heads(silos@, silos@.len() as int),
        forall|k: int| 0 <= k < heads@.len() ==> heads@[k] < silos@.len(),
{
    let mut heads: Vec<usize> = Vec::new();
    let mut i: usize = 0;
    while i < silos.len()
        invariant
            i <= silos.len(),
            as_ints(heads@) == repo_heads(silos@, i as int),
            forall|k: int| 0 <= k < heads@.len() ==> heads@[k] < i,
        decreases silos.len() - i,
    {
        let mut seen = false;
        let mut j: usize = 0;
        while j < i
            invariant_except_break
                !seen,
                forall|k: int|
                    0 <= k < j ==> silos@[k].main_worktree@ != silos@[i as int].main_worktree@,
            invariant
                j <= i < silos.len(),
            ensures
                seen == seen_before(silos@, i as int),
            decreases i - j,
        {
            if str_eq(silos[j].main_worktree.as_str(), silos[i].main_worktree.as_str()) {
                seen = true;
                break ;
            }
            j += 1;
        }
        if !seen {
            heads.push(i);
        }
        i += 1;
    }
    heads
}

fn sort_heads(silos: &[Silo], heads: &Vec<usize>) -> (order: Vec<usize>)
    requires
        as_ints(heads@) == repo_heads(silos@, silos@.len() as int),
        forall|k: int| 0 <= k < heads@.len() ==> heads@[k] < silos@.len(),
    ensures
        as_ints(order@) == repos_in_order(silos@),
        forall|k: int| 0 <= k < order@.len() ==> order@[k] < silos@.len(),
{
    let ghost wanted = head_names(silos@, as_ints(heads@));
    let mut names: Vec<String> = Vec::new();
    let mut i: usize = 0;
    while i < heads.len()
        invariant
            i <= heads.len(),
            forall|k: int| 0 <= k < heads@.len() ==> heads@[k] < silos@.len(),
            wanted == head_names(silos@, as_ints(heads@)),
            names.deep_view() == wanted.take(i as int),
        decreases heads.len() - i,
    {
        push_str(&mut names, silos[heads[i]].repo_name.as_str());
        i += 1;
    }
    assert(wanted.take(i as int) =~= wanted);
    let by_name = order_by_text(&names);
    let ghost target = repos_in_order(silos@);
    let mut order: Vec<usize> = Vec::new();
    let mut k: usize = 0;
    while k < by_name.len()
        invariant
            k <= by_name.len(),
            by_name@.len() == heads@.len(),
            as_ints(heads@) == repo_heads(silos@, silos@.len() as int),
            as_ints(by_name@) == in_text_order(
                head_names(silos@, as_ints(heads@)),
                heads@.len() as int,
            ),
            forall|j: int| 0 <= j < by_name@.len() ==> by_name@[j] < heads@.len(),
            forall|j: int| 0 <= j < heads@.len() ==> heads@[j] < silos@.len(),
            target == repos_in_order(silos@),
            as_ints(order@) == target.take(k as int),
            forall|j: int| 0 <= j < order@.len() ==> order@[j] < silos@.len(),
        decreases by_name.len() - k,
    {
        let ghost before = as_ints(order@);
        order.push(heads[by_name[k]]);
        assert(as_ints(order@) =~= before.push(target[k as int]));
        k += 1;
    }
    order
}

fn members_of(silos: &[Silo], head: usize) -> (group: Vec<usize>)
    requires
        head < silos@.len(),
    ensures
        as_ints(group@) == members(silos@, head as int, silos@.len() as int),
        forall|k: int| 0 <= k < group@.len() ==> group@[k] < silos@.len(),
{
    let mut group: Vec<usize> = Vec::new();
    let mut i: usize = 0;
    while i < silos.len()
        invariant
            i <= silos.len(),
            head < silos@.len(),
            as_ints(group@) == members(silos@, head as int, i as int),
            forall|k: int| 0 <= k < group@.len() ==> group@[k] < i,
        decreases silos.len() - i,
    {
        if str_eq(silos[i].main_worktree.as_str(), silos[head].main_worktree.as_str()) {
            group.push(i);
        }
        i += 1;
    }
    group
}

/// The silos by repository. A repository is told by the path of its main
/// worktree; the repositories come in the order of their names, and of two
/// with one name the one whose silo comes first in `silos`.
pub fn group_by_repo(silos: &[Silo]) -> (groups: Vec<Vec<usize>>)
    ensures
        as_int_lists(groups@) == grouped(silos@),
        forall|k: int, j: int|
            0 <= k < groups@.len() && 0 <= j < groups@[k]@.len() ==> groups@[k]@[j] < silos@.len(),
{
    let heads = heads_of(silos);
    let order = sort_heads(silos, &heads);
    let ghost wanted = grouped(silos@);
    let mut groups: Vec<Vec<usize>> = Vec::new();
    let mut k: usize = 0;
    while k < order.len()
        invariant
            k <= order.len(),
            as_ints(order@) == repos_in_order(silos@),
            forall|j: int| 0 <= j < order@.len() ==> order@[j] < silos@.len(),
            wanted == grouped(silos@),
            as_int_lists(groups@) == wanted.take(k as int),
            forall|g: int, j: int|
                0 <= g < groups@.len() && 0 <= j < groups@[g]@.len() ==> groups@[g]@[j]
                    < silos@.len(),
        decreases order.len() - k,
    {
        let ghost before = as_int_lists(groups@);
        let group = members_of(silos, order[k]);
        groups.push(group);
        assert(as_int_lists(groups@) =~= before.push(wanted[k as int]));
        k += 1;
    }
    groups
}

/// The room that is kept for the name of a main worktree, for a repository
/// whose name takes `n` bytes: twice that and one more, as far as the
/// machine counts.
pub open spec fn main_name_room(n: nat) -> nat {
    if n <= (usize::MAX - 1) / 2 {
        2 * n + 1
    } else {
        usize::MAX as nat
    }
}

/// The width of a column over the first `upto` repositories.
pub open spec fn all_width(groups: Seq<RepoGroup>, names: bool, floor: nat, upto: int) -> nat
    decreases upto,
{
    if upto <= 0 {
        floor
    } else {
        let before = all_width(groups, names, floor, upto - 1);
        let group = groups[upto - 1];
        column_width(
            group.rows@,
            names,
            if names {
                larger(before, main_name_room(byte_len(group.repo_name@)))
            } else {
                before
            },
            group.rows@.len() as int,
        )
    }
}

/// The name under which the main worktree of a repository is listed.
pub open spec fn main_name(group: RepoGroup) -> Seq<char> {
    group.repo_name@ + "/"@ + group.main_branch@
}

/// The line of the main worktree of a repository in the listing of all.
pub open spec fn repo_line(group: RepoGroup, name_width: int, branch_width: int, is_tty: bool) -> Seq<
    char,
> {
    if is_tty {
        marker(group.current_main) + " "@ + padded(main_name(group), name_width) + "  "@ + padded(
            group.main_branch@,
            branch_width,
        ) + "  "@ + group.main_worktree@
    } else {
        marker(group.current_main) + " "@ + main_name(group) + " ("@ + group.main_branch@
            + ")  "@ + group.main_worktree@
    }
}

/// The lines of one repository in the listing of all.
pub open spec fn group_lines(group: RepoGroup, name_width: int, branch_width: int, use_color: bool, is_tty: bool) -> Seq<
    Seq<char>,
> {
    seq![repo_line(group, name_width, branch_width, is_tty)] + silo_lines(
        group.rows@,
        ordered(group.rows@),
        name_width,
        branch_width,
        use_color,
        is_tty,
    )
}

/// The lines of the first `upto` repositories, an empty line between two of
/// them.
pub open spec fn groups_lines(
    groups: Seq<RepoGroup>,
    name_width: int,
    branch_width: int,
    use_color: bool,
    is_tty: bool,
    upto: int,
) -> Seq<Seq<char>>
    decreases upto,
{
    if upto <= 0 {
        Seq::<Seq<char>>::empty()
    } else if upto == 1 {
        group_lines(groups[0], name_width, branch_width, use_color, is_tty)
    } else {
        groups_lines(groups, name_width, branch_width, use_color, is_tty, upto - 1).push(
            Seq::<char>::empty(),
        ) + group_lines(groups[upto - 1], name_width, branch_width, use_color, is_tty)
    }
}

/// The listing of all repositories: at a terminal a table whose columns
/// line up over all of them; elsewhere plain lines.
pub open spec fn all_listing(groups: Seq<RepoGroup>, use_color: bool, is_tty: bool) -> Seq<
    Seq<char>,
> {
    let name_width = if is_tty {
        all_width(groups, true, 4, groups.len() as int) as int
    } else {
        0
    };
    let branch_width = if is_tty {
        all_width(groups, false, 6, groups.len() as int) as int
    } else {
        0
    };
    (if is_tty {
        seq![header_line(name_width, branch_width)]
    } else {
        Seq::<Seq<char>>::empty()
    }) + groups_lines(groups, name_width, branch_width, use_color, is_tty, groups.len() as int)
}

fn width_over(groups: &Vec<RepoGroup>, names: bool, floor: usize) -> (width: usize)
    ensures
        width == all_width(groups@, names, floor as nat, groups@.len() as int),
{
    let mut width: usize = floor;
    let mut i: usize = 0;
    while i < groups.len()
        invariant
            i <= groups.len(),
            width == all_width(groups@, names, floor as nat, i as int),
        decreases groups.len() - i,
    {
        let mut start: usize = width;
        if names {
            let repo = groups[i].repo_name.as_str().as_bytes().len();
            let room: usize = if repo <= (usize::MAX - 1) / 2 {
                2 * repo + 1
            } else {
                usize::MAX
            };
            if room > start {
                start = room;
            }
        }
        width = width_of(&groups[i].rows, names, start);
        i += 1;
    }
    width
}

fn push_group_lines(
    out: &mut Vec<String>,
    group: &RepoGroup,
    name_width: usize,
    branch_width: usize,
    use_color: bool,
    is_tty: bool,
)
    ensures
        final(out).deep_view() == old(out).deep_view() + group_lines(
            *group,
            name_width as int,
            branch_width as int,
            use_color,
            is_tty,
        ),
{
    let mut line = String::new();
    push_marker(&mut line, group.current_main);
    line.append(" ");
    let mut name = concat_str(group.repo_name.as_str(), "/");
    name.append(group.main_branch.as_str());
    if is_tty {
        push_padded(&mut line, name.as_str(), name_width);
        line.append("  ");
        push_padded(&mut line, group.main_branch.as_str(), branch_width);
        line.append("  ");
        line.append(group.main_worktree.as_str());
    } else {
        line.append(name.as_str());
        line.append(" (");
        line.append(group.main_branch.as_str());
        line.append(")  ");
        line.append(group.main_worktree.as_str());
    }
    push_str(out, line.as_str());
    push_silo_lines(out, &group.rows, name_width, branch_width, use_color, is_tty);
}

/// The listing of the silos of all repositories, line by line. The
/// repositories come in the order of `groups`, an empty line between two of
/// them; within each, the silos furthest ahead come first.
pub fn run_all(groups: &Vec<RepoGroup>, use_color: bool, is_tty: bool) -> (out: Vec<String>)
    ensures
        out.deep_view() == all_listing(groups@, use_color, is_tty),
{
    let name_width: usize = if is_tty {
        width_over(groups, true, 4)
    } else {
        0
    };
    let branch_width: usize = if is_tty {
        width_over(groups, false, 6)
    } else {
        0
    };
    let mut out: Vec<String> = Vec::new();
    if is_tty {
        let header = format_header(name_width, branch_width);
        push_str(&mut out, header.as_str());
    }
    let ghost head = out.deep_view();
    let ghost nw = name_width as int;
    let ghost bw = branch_width as int;
    let mut i: usize = 0;
    while i < groups.len()
        invariant
            i <= groups.len(),
            nw == name_width as int,
            bw == branch_width as int,
            out.deep_view() == head + groups_lines(groups@, nw, bw, use_color, is_tty, i as int),
        decreases groups.len() - i,
    {
        if i > 0 {
            proof {
                reveal_strlit("");
                assert(""@ =~= Seq::<char>::empty());
            }
            push_str(&mut out, "");
        }
        push_group_lines(&mut out, &groups[i], name_width, branch_width, use_color, is_tty);
        i += 1;
    }
    out
}

/// What is listed where output is kept short: the name of every silo, with
/// the name of its repository in front where all repositories are listed.
pub open spec fn quiet_listing(silos: Seq<Silo>, all: bool) -> Seq<Seq<char>> {
    Seq::new(
        silos.len(),
        |i: int|
            if all {
                silos[i].repo_name@ + "/"@ + silos[i].name@
            } else {
                silos[i].name@
            },
    )
}

/// The short listing: one name on each line.
pub fn quiet_lines(silos: &[Silo], all: bool) -> (out: Vec<String>)
    ensures
        out.deep_view() == quiet_listing(silos@, all),
{
    let ghost wanted = quiet_listing(silos@, all);
    let mut out: Vec<String> = Vec::new();
    let mut i: usize = 0;
    while i < silos.len()
        invariant
            i <= silos.len(),
            wanted == quiet_listing(silos@, all),
            out.deep_view() == wanted.take(i as int),
        decreases silos.len() - i,
    {
        if all {
            let mut line = concat_str(silos[i].repo_name.as_str(), "/");
            line.append(silos[i].name.as_str());
            push_str(&mut out, line.as_str());
        } else {
            push_str(&mut out, silos[i].name.as_str());
        }
        i += 1;
    }
    out
}

} // verus!
