//! The TCP connections of a process, out of the table that the system keeps.

use vstd::prelude::*;
use crate::bytes::{law_bytes_count_from_the_lowest, le_at, read_u32};
use crate::text::{decimal, decimal_of};

verus! {

/// One connection of a process.
#[derive(Debug)]
pub struct ConnectionInfo {
    pub proto: String,
    pub local: String,
    pub remote: String,
    pub state: String,
}

/// What a connection holds.
pub struct ConnectionView {
    pub proto: Seq<char>,
    pub local: Seq<char>,
    pub remote: Seq<char>,
    pub state: Seq<char>,
}

impl View for ConnectionInfo {
    type V = ConnectionView;

    open spec fn view(&self) -> ConnectionView {
        ConnectionView {
            proto: self.proto@,
            local: self.local@,
            remote: self.remote@,
            state: self.state@,
        }
    }
}

/// What a list of connections holds.
pub open spec fn connections_view(v: Seq<ConnectionInfo>) -> Seq<ConnectionView> {
    v.map_values(|c: ConnectionInfo| c@)
}

/// The name of a state of a connection.
pub open spec fn tcp_state_name(state: u32) -> Seq<char> {
    match state {
        1 => "CLOSED"@,
        2 => "LISTEN"@,
        3 => "SYN_SENT"@,
        4 => "SYN_RECEIVED"@,
        5 => "ESTABLISHED"@,
        6 => "FIN_WAIT1"@,
        7 => "FIN_WAIT2"@,
        8 => "CLOSE_WAIT"@,
        9 => "CLOSING"@,
        10 => "LAST_ACK"@,
        11 => "TIME_WAIT"@,
        12 => "DELETE_TCB"@,
        _ => "UNKNOWN"@,
    }
}

/// Names a state of a connection.
pub fn tcp_state_to_string(state: u32) -> (r: &'static str)
    ensures
        r@ == tcp_state_name(state),
{
    match state {
        1 => "CLOSED",
        2 => "LISTEN",
        3 => "SYN_SENT",
        4 => "SYN_RECEIVED",
        5 => "ESTABLISHED",
        6 => "FIN_WAIT1",
        7 => "FIN_WAIT2",
        8 => "CLOSE_WAIT",
        9 => "CLOSING",
        10 => "LAST_ACK",
        11 => "TIME_WAIT",
        12 => "DELETE_TCB",
        _ => "UNKNOWN",
    }
}

/// A row of the table. Addresses and ports are in network order, a port in the lower
/// half of its number.
#[derive(Clone, Copy, Debug, PartialEq, Eq, Structural)]
pub struct TcpRow {
    pub state: u32,
    pub local_addr: u32,
    pub local_port: u32,
    pub remote_addr: u32,
    pub remote_port: u32,
    pub owning_pid: u32,
}

/// The size of a row in bytes.
pub const ROW_SIZE: usize = 24;

/// The number of rows, which stands at the start of the table.
pub open spec fn row_count(table: Seq<u8>) -> nat {
    le_at(table, 0, 4)
}

/// The buffer holds the number of rows and as many rows.
pub open spec fn table_complete(table: Seq<u8>) -> bool {
    table.len() >= 4 && table.len() >= 4 + ROW_SIZE * row_count(table)
}

/// The row with a given index.
pub open spec fn row_at(table: Seq<u8>, index: int) -> TcpRow {
    let o = 4 + ROW_SIZE * index;
    TcpRow {
        state: le_at(table, o, 4) as u32,
        local_addr: le_at(table, o + 4, 4) as u32,
        local_port: le_at(table, o + 8, 4) as u32,
        remote_addr: le_at(table, o + 12, 4) as u32,
        remote_port: le_at(table, o + 16, 4) as u32,
        owning_pid: le_at(table, o + 20, 4) as u32,
    }
}

/// All rows, in the order of the table.
pub open spec fn table_rows(table: Seq<u8>) -> Seq<TcpRow> {
    Seq::new(row_count(table), |i: int| row_at(table, i))
}

/// Whether the buffer holds the number of rows and as many rows.
pub fn is_table_complete(table: &[u8]) -> (r: bool)
    ensures
        r == table_complete(table@),
{
    if table.len() < 4 {
        return false;
    }
    let count: usize = read_u32(table, 0) as usize;
    let room: usize = (table.len() - 4) / ROW_SIZE;
    count <= room
}

/// Reads a row.
fn read_row(table: &[u8], index: usize) -> (r: TcpRow)
    requires
        4 + ROW_SIZE * (index + 1) <= table@.len(),
    ensures
        r == row_at(table@, index as int),
{
    assert(table@.len() == table.len());
    let o: usize = 4 + ROW_SIZE * index;
    TcpRow {
        state: read_u32(table, o),
        local_addr: read_u32(table, o + 4),
        local_port: read_u32(table, o + 8),
        remote_addr: read_u32(table, o + 12),
        remote_port: read_u32(table, o + 16),
        owning_pid: read_u32(table, o + 20),
    }
}

/// The text of an address and a port: four numbers with dots between them, a colon
/// and the port. The lowest byte of the address is its first number, and the two
/// lower bytes of the port are the other way round.
pub open spec fn endpoint(addr: u32, port: u32) -> Seq<char> {
    decimal((addr % 256) as nat) + "."@ + decimal((addr / 0x100 % 256) as nat) + "."@ + decimal(
        (addr / 0x1_0000 % 256) as nat,
    ) + "."@ + decimal((addr / 0x100_0000) as nat) + ":"@ + decimal(port_number(port))
}

/// The port in the lower half of a number in network order.
pub open spec fn port_number(port: u32) -> nat {
    (port % 256 * 256 + port / 256 % 256) as nat
}

/// Writes an address and a port.
pub fn endpoint_of(addr: u32, port: u32) -> (r: String)
    ensures
        r@ == endpoint(addr, port),
{
    decimal_of(addr % 256).concat(".").concat(decimal_of(addr / 0x100 % 256).as_str()).concat(
        ".",
    ).concat(decimal_of(addr / 0x1_0000 % 256).as_str()).concat(".").concat(
        decimal_of(addr / 0x100_0000).as_str(),
    ).concat(":").concat(decimal_of(port % 256 * 256 + port / 256 % 256).as_str())
}

/// What is reported of a row.
pub open spec fn connection(row: TcpRow) -> ConnectionView {
    ConnectionView {
        proto: "tcp"@,
        local: endpoint(row.local_addr, row.local_port),
        remote: endpoint(row.remote_addr, row.remote_port),
        state: tcp_state_name(row.state),
    }
}

/// Reports a row.
pub fn connection_of(row: TcpRow) -> (r: ConnectionInfo)
    ensures
        r@ == connection(row),
{
    ConnectionInfo {
        proto: "tcp".to_owned(),
        local: endpoint_of(row.local_addr, row.local_port),
        remote: endpoint_of(row.remote_addr, row.remote_port),
        state: tcp_state_to_string(row.state).to_owned(),
    }
}

/// The rows of a process, in the order of the table.
pub open spec fn rows_of(table: Seq<u8>, pid: u32) -> Seq<TcpRow> {
    table_rows(table).filter(|row: TcpRow| row.owning_pid == pid)
}

/// What is reported of a process: each of its rows, in the order of the table.
pub open spec fn connections(table: Seq<u8>, pid: u32) -> Seq<ConnectionView> {
    rows_of(table, pid).map_values(|row: TcpRow| connection(row))
}

/// Finds the connections of a process in the table.
pub fn connections_in(table: &[u8], pid: u32) -> (r: Vec<ConnectionInfo>)
    requires
        table_complete(table@),
    ensures
        connections_view(r@) == connections(table@, pid),
{
    let ghost rows = table_rows(table@);
    let ghost owned = |row: TcpRow| row.owning_pid == pid;
    let ghost shown = |row: TcpRow| connection(row);
    let count: usize = read_u32(table, 0) as usize;
    let mut r: Vec<ConnectionInfo> = Vec::new();
    let mut i: usize = 0;
    assert(connections_view(r@) =~= rows.take(0).filter(owned).map_values(shown));
    while i < count
        invariant
            i <= count == row_count(table@),
            table_complete(table@),
            rows == table_rows(table@),
            owned == |row: TcpRow| row.owning_pid == pid,
            shown == |row: TcpRow| connection(row),
            connections_view(r@) == rows.take(i as int).filter(owned).map_values(shown),
        decreases count - i,
    {
        let row = read_row(table, i);
        let ghost before = r@;
        assert(rows[i as int] == row);
        assert(rows.take(i + 1).drop_last() =~= rows.take(i as int));
        assert(rows.take(i + 1).last() == row);
        reveal(Seq::filter);
        if row.owning_pid == pid {
            r.push(connection_of(row));
            assert(connections_view(r@) =~= connections_view(before).push(connection(row)));
            assert(rows.take(i + 1).filter(owned) =~= rows.take(i as int).filter(owned).push(row));
            assert(rows.take(i + 1).filter(owned).map_values(shown) =~= rows.take(
                i as int,
            ).filter(owned).map_values(shown).push(connection(row)));
        }
        i = i + 1;
    }
    assert(rows.take(count as int) =~= rows);
    r
}

/// What to ask the system for next.
#[derive(Clone, Copy, Debug, PartialEq, Eq, Structural)]
pub enum ConnectionsStage {
    /// Ask how many bytes the table takes.
    MeasureTable,
    /// Ask for the table, with a buffer of so many bytes.
    ReadTable { bytes: u32 },
    Done,
}

/// The dialogue that finds the connections of a process.
pub struct ConnectionsProbe {
    pub pid: u32,
    pub stage: ConnectionsStage,
    pub connections: Vec<ConnectionInfo>,
}

/// Where the dialogue stands, and what it has found.
pub struct ConnectionsView {
    pub pid: u32,
    pub stage: ConnectionsStage,
    pub connections: Seq<ConnectionView>,
}

impl View for ConnectionsProbe {
    type V = ConnectionsView;

    open spec fn view(&self) -> ConnectionsView {
        ConnectionsView {
            pid: self.pid,
            stage: self.stage,
            connections: connections_view(self.connections@),
        }
    }
}

impl ConnectionsView {
    /// The start of every dialogue.
    pub open spec fn start(pid: u32) -> Self {
        ConnectionsView { pid, stage: ConnectionsStage::MeasureTable, connections: Seq::empty() }
    }

    /// A table without size is not asked for.
    pub open spec fn after_measured(self, bytes: u32) -> Self {
        if self.stage is MeasureTable {
            ConnectionsView {
                stage: if bytes == 0 {
                    ConnectionsStage::Done
                } else {
                    ConnectionsStage::ReadTable { bytes }
                },
                ..self
            }
        } else {
            self
        }
    }

    /// Only a status of zero brings a table.
    pub open spec fn after_table(self, status: u32, table: Seq<u8>) -> Self {
        if self.stage is ReadTable {
            ConnectionsView {
                stage: ConnectionsStage::Done,
                connections: if status == 0 {
                    connections(table, self.pid)
                } else {
                    self.connections
                },
                ..self
            }
        } else {
            self
        }
    }
}

impl ConnectionsProbe {
    /// Starts the dialogue for a process.
    pub fn new(pid: u32) -> (r: Self)
        ensures
            r@ == ConnectionsView::start(pid),
    {
        let found: Vec<ConnectionInfo> = Vec::new();
        assert(connections_view(found@) =~= Seq::empty());
        ConnectionsProbe { pid, stage: ConnectionsStage::MeasureTable, connections: found }
    }

    /// How many bytes the table takes.
    pub fn measured(self, bytes: u32) -> (r: Self)
        ensures
            r@ == self@.after_measured(bytes),
    {
        match self.stage {
            ConnectionsStage::MeasureTable => ConnectionsProbe {
                stage: if bytes == 0 {
                    ConnectionsStage::Done
                } else {
                    ConnectionsStage::ReadTable { bytes }
                },
                ..self
            },
            _ => self,
        }
    }

    /// The status of the query for the table, and the buffer for it.
    pub fn table_read(self, status: u32, table: &[u8]) -> (r: Self)
        requires
            status == 0 ==> table_complete(table@),
        ensures
            r@ == self@.after_table(status, table@),
    {
        match self.stage {
            ConnectionsStage::ReadTable { .. } => {
                let found = if status == 0 {
                    connections_in(table, self.pid)
                } else {
                    self.connections
                };
                ConnectionsProbe {
                    pid: self.pid,
                    stage: ConnectionsStage::Done,
                    connections: found,
                }
            },
            _ => self,
        }
    }
}

/// Text of digits alone.
pub open spec fn all_digits(s: Seq<char>) -> bool {
    forall|i: int| 0 <= i < s.len() ==> '0' <= #[trigger] s[i] <= '9'
}

/// Where digits end at the same mark, the digits are the same and so is the rest.
proof fn lemma_digits_up_to_a_mark(
    a: Seq<char>,
    b: Seq<char>,
    mark: Seq<char>,
    x: Seq<char>,
    y: Seq<char>,
)
    requires
        all_digits(a),
        all_digits(b),
        mark.len() == 1,
        !('0' <= mark[0] <= '9'),
        a + mark + x == b + mark + y,
    ensures
        a == b,
        x == y,
{
    let l = a + mark + x;
    let r = b + mark + y;
    assert(l[a.len() as int] == mark[0]);
    assert(r[b.len() as int] == mark[0]);
    if a.len() < b.len() {
        assert(r[a.len() as int] == b[a.len() as int]);
        assert(false);
    }
    if b.len() < a.len() {
        assert(l[b.len() as int] == a[b.len() as int]);
        assert(false);
    }
    assert(a =~= b) by {
        assert forall|i: int| 0 <= i < a.len() implies a[i] == b[i] by {
            assert(l[i] == a[i]);
            assert(r[i] == b[i]);
        }
    }
    assert(x =~= y) by {
        assert(l.len() == a.len() + 1 + x.len() && r.len() == b.len() + 1 + y.len());
        assert forall|i: int| 0 <= i < x.len() implies x[i] == y[i] by {
            assert(l[a.len() + 1 + i] == x[i]);
            assert(r[b.len() + 1 + i] == y[i]);
        }
    }
}

/// Where numerals end at the same mark, the numbers are the same and so is the rest.
proof fn lemma_numeral_up_to_a_mark(
    m: nat,
    n: nat,
    mark: Seq<char>,
    x: Seq<char>,
    y: Seq<char>,
)
    requires
        mark.len() == 1,
        !('0' <= mark[0] <= '9'),
        decimal(m) + mark + x == decimal(n) + mark + y,
    ensures
        m == n,
        x == y,
{
    crate::text::law_decimal_reads_back(m);
    crate::text::law_decimal_reads_back(n);
    lemma_digits_up_to_a_mark(decimal(m), decimal(n), mark, x, y);
}

/// The text of an endpoint behind its third dot.
spec fn from_last_number(addr: u32, port: u32) -> Seq<char> {
    decimal((addr / 0x100_0000) as nat) + ":"@ + decimal(port_number(port))
}

/// The text of an endpoint behind its second dot.
spec fn from_third_number(addr: u32, port: u32) -> Seq<char> {
    decimal((addr / 0x1_0000 % 256) as nat) + "."@ + from_last_number(addr, port)
}

/// The text of an endpoint behind its first dot.
spec fn from_second_number(addr: u32, port: u32) -> Seq<char> {
    decimal((addr / 0x100 % 256) as nat) + "."@ + from_third_number(addr, port)
}

/// Text put together in either grouping is the same.
proof fn lemma_regroup(a: Seq<char>, b: Seq<char>, c: Seq<char>)
    ensures
        (a + b) + c == a + (b + c),
{
    assert((a + b) + c =~= a + (b + c));
}

/// Four texts with marks between them and one behind, in either grouping.
proof fn lemma_regroup_all(
    a: Seq<char>,
    b: Seq<char>,
    c: Seq<char>,
    d: Seq<char>,
    e: Seq<char>,
    dot: Seq<char>,
    colon: Seq<char>,
)
    ensures
        a + dot + b + dot + c + dot + d + colon + e == a + dot + (b + dot + (c + dot + (d + colon
            + e))),
{
    let x = a + dot;
    let y = x + b + dot;
    let z = y + c + dot;
    lemma_regroup(z, d, colon);
    lemma_regroup(z, d + colon, e);
    lemma_regroup(y, c, dot);
    lemma_regroup(y, c + dot, d + colon + e);
    lemma_regroup(x, b, dot);
    lemma_regroup(x, b + dot, c + dot + (d + colon + e));
}

proof fn lemma_first_number(addr1: u32, port1: u32, addr2: u32, port2: u32)
    requires
        endpoint(addr1, port1) == endpoint(addr2, port2),
    ensures
        addr1 % 256 == addr2 % 256,
        from_second_number(addr1, port1) == from_second_number(addr2, port2),
{
    let m = (addr1 % 256) as nat;
    let n = (addr2 % 256) as nat;
    let x = from_second_number(addr1, port1);
    let y = from_second_number(addr2, port2);
    lemma_regroup_all(
        decimal(m),
        decimal((addr1 / 0x100 % 256) as nat),
        decimal((addr1 / 0x1_0000 % 256) as nat),
        decimal((addr1 / 0x100_0000) as nat),
        decimal(port_number(port1)),
        "."@,
        ":"@,
    );
    lemma_regroup_all(
        decimal(n),
        decimal((addr2 / 0x100 % 256) as nat),
        decimal((addr2 / 0x1_0000 % 256) as nat),
        decimal((addr2 / 0x100_0000) as nat),
        decimal(port_number(port2)),
        "."@,
        ":"@,
    );
    assert("."@.len() == 1 && "."@[0] == '.') by {
        reveal_strlit(".");
    }
    lemma_numeral_up_to_a_mark(m, n, "."@, x, y);
}

proof fn lemma_second_number(addr1: u32, port1: u32, addr2: u32, port2: u32)
    requires
        from_second_number(addr1, port1) == from_second_number(addr2, port2),
    ensures
        addr1 / 0x100 % 256 == addr2 / 0x100 % 256,
        from_third_number(addr1, port1) == from_third_number(addr2, port2),
{
    assert("."@.len() == 1 && "."@[0] == '.') by {
        reveal_strlit(".");
    }
    lemma_numeral_up_to_a_mark(
        (addr1 / 0x100 % 256) as nat,
        (addr2 / 0x100 % 256) as nat,
        "."@,
        from_third_number(addr1, port1),
        from_third_number(addr2, port2),
    );
}

proof fn lemma_third_number(addr1: u32, port1: u32, addr2: u32, port2: u32)
    requires
        from_third_number(addr1, port1) == from_third_number(addr2, port2),
    ensures
        addr1 / 0x1_0000 % 256 == addr2 / 0x1_0000 % 256,
        from_last_number(addr1, port1) == from_last_number(addr2, port2),
{
    assert("."@.len() == 1 && "."@[0] == '.') by {
        reveal_strlit(".");
    }
    lemma_numeral_up_to_a_mark(
        (addr1 / 0x1_0000 % 256) as nat,
        (addr2 / 0x1_0000 % 256) as nat,
        "."@,
        from_last_number(addr1, port1),
        from_last_number(addr2, port2),
    );
}

proof fn lemma_last_number(addr1: u32, port1: u32, addr2: u32, port2: u32)
    requires
        from_last_number(addr1, port1) == from_last_number(addr2, port2),
    ensures
        addr1 / 0x100_0000 == addr2 / 0x100_0000,
        port_number(port1) == port_number(port2),
{
    assert(":"@.len() == 1 && ":"@[0] == ':') by {
        reveal_strlit(":");
    }
    lemma_numeral_up_to_a_mark(
        (addr1 / 0x100_0000) as nat,
        (addr2 / 0x100_0000) as nat,
        ":"@,
        decimal(port_number(port1)),
        decimal(port_number(port2)),
    );
    crate::text::law_decimal_is_injective(port_number(port1), port_number(port2));
}

proof fn lemma_bytes_make_the_number(a: u32, b: u32)
    requires
        a % 256 == b % 256,
        a / 0x100 % 256 == b / 0x100 % 256,
        a / 0x1_0000 % 256 == b / 0x1_0000 % 256,
        a / 0x100_0000 == b / 0x100_0000,
    ensures
        a == b,
{
}

/// Two endpoints with the same text have the same address and the same port.
pub proof fn law_endpoint_is_injective(addr1: u32, port1: u32, addr2: u32, port2: u32)
    requires
        endpoint(addr1, port1) == endpoint(addr2, port2),
    ensures
        addr1 == addr2,
        port_number(port1) == port_number(port2),
{
    lemma_first_number(addr1, port1, addr2, port2);
    lemma_second_number(addr1, port1, addr2, port2);
    lemma_third_number(addr1, port1, addr2, port2);
    lemma_last_number(addr1, port1, addr2, port2);
    lemma_bytes_make_the_number(addr1, addr2);
}

/// What passes a filter was there before.
proof fn lemma_filtered_was_there<A>(s: Seq<A>, pred: spec_fn(A) -> bool, k: int)
    requires
        0 <= k < s.filter(pred).len(),
    ensures
        s.contains(s.filter(pred)[k]),
    decreases s.len(),
{
    reveal(Seq::filter);
    if s.len() > 0 {
        let init = s.drop_last();
        if k < init.filter(pred).len() {
            lemma_filtered_was_there(init, pred, k);
            let i = choose|i: int| 0 <= i < init.len() && init[i] == init.filter(pred)[k];
            assert(s[i] == s.filter(pred)[k]);
        } else {
            assert(s[s.len() - 1] == s.filter(pred)[k]);
        }
    }
}

/// Every row of a process is reported, and no row of another.
pub proof fn law_connections_are_those_of_the_process(table: Seq<u8>, pid: u32)
    ensures
        forall|i: int|
            0 <= i < row_count(table) && (#[trigger] row_at(table, i)).owning_pid == pid
                ==> connections(table, pid).contains(connection(row_at(table, i))),
        forall|c: ConnectionView|
            #[trigger] connections(table, pid).contains(c) ==> exists|i: int|
                0 <= i < row_count(table) && (#[trigger] row_at(table, i)).owning_pid == pid
                    && connection(row_at(table, i)) == c,
{
    let rows = table_rows(table);
    let owned = |row: TcpRow| row.owning_pid == pid;
    assert forall|i: int|
        0 <= i < row_count(table) && (#[trigger] row_at(table, i)).owning_pid
            == pid implies connections(table, pid).contains(connection(row_at(table, i))) by {
        assert(rows[i] == row_at(table, i));
        assert(owned(rows[i]));
        broadcast use vstd::seq_lib::group_filter_ensures;

        assert(rows.filter(owned).contains(rows[i]));
        let k = choose|k: int|
            0 <= k < rows_of(table, pid).len() && rows_of(table, pid)[k] == rows[i];
        assert(connections(table, pid)[k] == connection(rows[i]));
    }
    assert forall|c: ConnectionView| #[trigger] connections(table, pid).contains(c) implies exists|
        i: int,
    |
        0 <= i < row_count(table) && (#[trigger] row_at(table, i)).owning_pid == pid && connection(
            row_at(table, i),
        ) == c by {
        let k = choose|k: int|
            0 <= k < connections(table, pid).len() && connections(table, pid)[k] == c;
        let row = rows_of(table, pid)[k];
        broadcast use vstd::seq_lib::group_filter_ensures;

        assert(owned(row));
        lemma_filtered_was_there(rows, owned, k);
        let i = choose|i: int| 0 <= i < rows.len() && rows[i] == row;
        assert(row_at(table, i) == row);
    }
}

proof fn lemma_bytes_of_a_number(a: u8, b: u8, c: u8, d: u8, addr: u32)
    requires
        addr == a + 0x100 * b + 0x1_0000 * c + 0x100_0000 * d,
    ensures
        addr % 256 == a,
        addr / 0x100 % 256 == b,
        addr / 0x1_0000 % 256 == c,
        addr / 0x100_0000 == d,
{
}

/// The numbers of an address are the bytes of its memory, in the order of the memory.
/// A port is the first byte of its memory times 256 and the second, and what stands
/// behind these two bytes does not matter.
pub proof fn law_endpoint_shows_the_bytes_in_order(
    a: u8,
    b: u8,
    c: u8,
    d: u8,
    p: u16,
    upper: u16,
    addr: u32,
    port: u32,
)
    requires
        addr == a + 0x100 * b + 0x1_0000 * c + 0x100_0000 * d,
        port == p as int / 256 + 0x100 * (p as int % 256) + 0x1_0000 * upper,
    ensures
        endpoint(addr, port) == decimal(a as nat) + "."@ + decimal(b as nat) + "."@ + decimal(
            c as nat,
        ) + "."@ + decimal(d as nat) + ":"@ + decimal(p as nat),
{
    lemma_bytes_of_a_number(a, b, c, d, addr);
    assert(port % 256 == p as int / 256);
    assert(port as int / 256 == p as int % 256 + 256 * upper);
    assert(port / 256 % 256 == p as int % 256);
    assert(p as int == (p as int / 256) * 256 + p as int % 256);
    assert(port_number(port) == p);
}

/// The table begins with the number of rows, and row after row follows, each with
/// state, local address and port, remote address and port, and process, in four bytes
/// apiece with the lowest first.
pub proof fn law_rows_follow_the_count(table: Seq<u8>, index: int)
    requires
        0 <= index,
        28 + 24 * index <= table.len(),
    ensures
        row_count(table) == table[0] + 0x100 * table[1] + 0x1_0000 * table[2] + 0x100_0000
            * table[3],
        ({
            let o = 4 + 24 * index;
            let row = row_at(table, index);
            &&& row.state == table[o] + 0x100 * table[o + 1] + 0x1_0000 * table[o + 2] + 0x100_0000
                * table[o + 3]
            &&& row.local_addr == table[o + 4] + 0x100 * table[o + 5] + 0x1_0000 * table[o + 6]
                + 0x100_0000 * table[o + 7]
            &&& row.local_port == table[o + 8] + 0x100 * table[o + 9] + 0x1_0000 * table[o + 10]
                + 0x100_0000 * table[o + 11]
            &&& row.remote_addr == table[o + 12] + 0x100 * table[o + 13] + 0x1_0000 * table[o + 14]
                + 0x100_0000 * table[o + 15]
            &&& row.remote_port == table[o + 16] + 0x100 * table[o + 17] + 0x1_0000 * table[o + 18]
                + 0x100_0000 * table[o + 19]
            &&& row.owning_pid == table[o + 20] + 0x100 * table[o + 21] + 0x1_0000 * table[o + 22]
                + 0x100_0000 * table[o + 23]
        }),
{
    let o = 4 + 24 * index;
    law_bytes_count_from_the_lowest(table, 0);
    law_bytes_count_from_the_lowest(table, o);
    law_bytes_count_from_the_lowest(table, o + 4);
    law_bytes_count_from_the_lowest(table, o + 8);
    law_bytes_count_from_the_lowest(table, o + 12);
    law_bytes_count_from_the_lowest(table, o + 16);
    law_bytes_count_from_the_lowest(table, o + 20);
}

/// A table is complete where it has room for the number of rows and for all of them.
pub proof fn law_complete_tables_hold_their_rows(table: Seq<u8>)
    ensures
        table_complete(table) <==> table.len() >= 4 && table.len() >= 4 + 24 * (table[0] + 0x100
            * table[1] + 0x1_0000 * table[2] + 0x100_0000 * table[3]),
{
    if table.len() >= 4 {
        law_bytes_count_from_the_lowest(table, 0);
    }
}

/// The endpoint of a row is read off its bytes: in the memory of the table, the four
/// bytes of an address are its numbers in order, and the two bytes of a port are its
/// upper and its lower half.
pub proof fn law_connection_shows_the_bytes_of_its_row(table: Seq<u8>, index: int)
    requires
        0 <= index,
        28 + 24 * index <= table.len(),
    ensures
        ({
            let o = 4 + 24 * index;
            let c = connection(row_at(table, index));
            &&& c.proto == "tcp"@
            &&& c.local == decimal(table[o + 4] as nat) + "."@ + decimal(table[o + 5] as nat)
                + "."@ + decimal(table[o + 6] as nat) + "."@ + decimal(table[o + 7] as nat) + ":"@
                + decimal((0x100 * table[o + 8] + table[o + 9]) as nat)
            &&& c.remote == decimal(table[o + 12] as nat) + "."@ + decimal(table[o + 13] as nat)
                + "."@ + decimal(table[o + 14] as nat) + "."@ + decimal(table[o + 15] as nat)
                + ":"@ + decimal((0x100 * table[o + 16] + table[o + 17]) as nat)
            &&& c.state == tcp_state_name(row_at(table, index).state)
        }),
{
    let o = 4 + 24 * index;
    law_rows_follow_the_count(table, index);
    let row = row_at(table, index);
    law_endpoint_shows_the_bytes_in_order(
        table[o + 4],
        table[o + 5],
        table[o + 6],
        table[o + 7],
        (0x100 * table[o + 8] + table[o + 9]) as u16,
        (table[o + 10] + 0x100 * table[o + 11]) as u16,
        row.local_addr,
        row.local_port,
    );
    law_endpoint_shows_the_bytes_in_order(
        table[o + 12],
        table[o + 13],
        table[o + 14],
        table[o + 15],
        (0x100 * table[o + 16] + table[o + 17]) as u16,
        (table[o + 18] + 0x100 * table[o + 19]) as u16,
        row.remote_addr,
        row.remote_port,
    );
}

/// The states of a connection, by number from one on. Every other number is unknown.
pub proof fn law_states_have_their_names(state: u32)
    ensures
        1 <= state <= 12 ==> tcp_state_name(state) == seq![
            "CLOSED"@,
            "LISTEN"@,
            "SYN_SENT"@,
            "SYN_RECEIVED"@,
            "ESTABLISHED"@,
            "FIN_WAIT1"@,
            "FIN_WAIT2"@,
            "CLOSE_WAIT"@,
            "CLOSING"@,
            "LAST_ACK"@,
            "TIME_WAIT"@,
            "DELETE_TCB"@,
        ][state - 1],
        state == 0 || state > 12 ==> tcp_state_name(state) == "UNKNOWN"@,
{
}

/// The rows that pass a filter, by their places: each once, in order, and all of them.
proof fn lemma_filter_keeps_order(rows: Seq<TcpRow>, pred: spec_fn(TcpRow) -> bool) -> (places: Seq<
    int,
>)
    ensures
        places.len() == rows.filter(pred).len(),
        forall|k: int|
            0 <= k < places.len() ==> 0 <= #[trigger] places[k] < rows.len() && pred(
                rows[places[k]],
            ) && rows.filter(pred)[k] == rows[places[k]],
        forall|j: int, k: int| 0 <= j < k < places.len() ==> places[j] < places[k],
        forall|i: int| 0 <= i < rows.len() && #[trigger] pred(rows[i]) ==> places.contains(i),
    decreases rows.len(),
{
    reveal(Seq::filter);
    if rows.len() == 0 {
        Seq::empty()
    } else {
        let init = rows.drop_last();
        let n = rows.len() - 1;
        let before = lemma_filter_keeps_order(init, pred);
        if pred(rows.last()) {
            let places = before.push(n);
            assert(rows.filter(pred) =~= init.filter(pred).push(rows.last()));
            assert forall|i: int| 0 <= i < rows.len() && #[trigger] pred(
                rows[i],
            ) implies places.contains(i) by {
                if i < n {
                    assert(pred(init[i]));
                    let k = choose|k: int| 0 <= k < before.len() && before[k] == i;
                    assert(places[k] == i);
                } else {
                    assert(places[before.len() as int] == i);
                }
            }
            places
        } else {
            assert forall|i: int| 0 <= i < rows.len() && #[trigger] pred(
                rows[i],
            ) implies before.contains(i) by {
                assert(pred(init[i]));
            }
            before
        }
    }
}

/// The connections of a process are its rows, each once, in the order of the table:
/// the k-th connection is that of the row at the k-th of the places that the process
/// has in the table.
pub proof fn law_connections_keep_the_order_of_the_table(table: Seq<u8>, pid: u32) -> (places: Seq<
    int,
>)
    ensures
        connections(table, pid).len() == places.len(),
        forall|k: int|
            0 <= k < places.len() ==> 0 <= #[trigger] places[k] < row_count(table) && row_at(
                table,
                places[k],
            ).owning_pid == pid && connections(table, pid)[k] == connection(
                row_at(table, places[k]),
            ),
        forall|j: int, k: int| 0 <= j < k < places.len() ==> places[j] < places[k],
        forall|i: int|
            0 <= i < row_count(table) && (#[trigger] row_at(table, i)).owning_pid == pid
                ==> places.contains(i),
{
    let rows = table_rows(table);
    let owned = |row: TcpRow| row.owning_pid == pid;
    let places = lemma_filter_keeps_order(rows, owned);
    assert forall|k: int| 0 <= k < places.len() implies 0 <= #[trigger] places[k] < row_count(table)
        && row_at(table, places[k]).owning_pid == pid && connections(table, pid)[k] == connection(
        row_at(table, places[k]),
    ) by {
        assert(rows[places[k]] == row_at(table, places[k]));
        assert(owned(rows[places[k]]));
    }
    assert forall|i: int|
        0 <= i < row_count(table) && (#[trigger] row_at(table, i)).owning_pid
            == pid implies places.contains(i) by {
        assert(rows[i] == row_at(table, i));
        assert(owned(rows[i]));
    }
    places
}

/// A table is asked for with as many bytes as were measured. What is found is what
/// stands in it for the process, and nothing where there is no table.
pub proof fn law_connections_come_from_the_table(
    pid: u32,
    bytes: u32,
    status: u32,
    table: Seq<u8>,
)
    ensures
        ({
            let asked = ConnectionsView::start(pid).after_measured(bytes);
            let end = asked.after_table(status, table);
            &&& bytes > 0 ==> asked.stage == ConnectionsStage::ReadTable { bytes }
            &&& end.stage is Done
            &&& end.pid == pid
            &&& end.connections == if bytes > 0 && status == 0 {
                connections(table, pid)
            } else {
                Seq::empty()
            }
        }),
{
}

/// The views show the four texts of a connection, and the dialogue with all that it
/// has found.
pub proof fn law_connection_views_are_faithful(c: ConnectionInfo, p: ConnectionsProbe)
    ensures
        c@.proto == c.proto@,
        c@.local == c.local@,
        c@.remote == c.remote@,
        c@.state == c.state@,
        p@.pid == p.pid,
        p@.stage == p.stage,
        p@.connections.len() == p.connections@.len(),
        forall|i: int|
            0 <= i < p.connections@.len() ==> #[trigger] p@.connections[i] == p.connections@[i]@,
{
}

} // verus!
