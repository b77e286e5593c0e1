//! Commands of the trace recorder's control plane.
use vstd::prelude::*;

verus! {

/// Trace recorder control-plane commands
#[derive(Copy, Clone, Eq, PartialEq, Ord, PartialOrd, Hash, Debug, Structural)]
pub enum TrcCommand {
    /// Start tracing.
    ///
    /// CMD_SET_ACTIVE with param1 set to 1.
    StartTracing,
    /// Stop tracing.
    ///
    /// CMD_SET_ACTIVE with param1 set to 0.
    StopTracing,
}

/// The parameters of a command, `param0` to `param5`.
pub open spec fn params(command: TrcCommand) -> Seq<u8> {
    seq![
        TrcCommand::CMD_SET_ACTIVE,
        if command is StartTracing { 1u8 } else { 0u8 },
        0u8,
        0u8,
        0u8,
        0u8,
    ]
}

/// The sum of all bytes of a sequence.
pub open spec fn byte_sum(bytes: Seq<u8>) -> nat
    decreases bytes.len(),
{
    if bytes.len() == 0 {
        0
    } else {
        byte_sum(bytes.drop_last()) + bytes.last() as nat
    }
}

/// A sixteen-bit number, low byte first.
pub open spec fn le_bytes(n: nat) -> Seq<u8> {
    seq![(n % 256) as u8, (n / 256) as u8]
}

/// The checksum: what is missing to 0xFFFF when all parameters are added up.
pub open spec fn checksum_of(command: TrcCommand) -> nat {
    (0xFFFF - byte_sum(params(command))) as nat
}

/// A command on the wire: its six parameters, then the checksum.
pub open spec fn wire_bytes(command: TrcCommand) -> Seq<u8> {
    params(command) + le_bytes(checksum_of(command))
}

proof fn param_sum(command: TrcCommand)
    ensures
        byte_sum(params(command)) == params(command)[0] + params(command)[1],
{
    let p = params(command);
    reveal_with_fuel(byte_sum, 7);
    assert(p.drop_last().drop_last().drop_last().drop_last().drop_last().last() == p[0]);
    assert(p.drop_last().drop_last().drop_last().drop_last().last() == p[1]);
    assert(p.drop_last().drop_last().drop_last().last() == p[2]);
    assert(p.drop_last().drop_last().last() == p[3]);
    assert(p.drop_last().last() == p[4]);
    assert(p.last() == p[5]);
}

impl TrcCommand {
    /// Wire size of a command, equivalent to `sizeof(TracealyzerCommandType)`
    pub const WIRE_SIZE: usize = 8;

    /// param1 = 1 means start, param1 = 0 means stop
    pub const CMD_SET_ACTIVE: u8 = 1;

    fn param0(&self) -> (param: u8)
        ensures
            param == params(*self)[0],
    {
        match self {
            TrcCommand::StartTracing | TrcCommand::StopTracing => Self::CMD_SET_ACTIVE,
        }
    }

    fn param1(&self) -> (param: u8)
        ensures
            param == params(*self)[1],
    {
        match self {
            TrcCommand::StartTracing => 1,
            TrcCommand::StopTracing => 0,
        }
    }

    fn checksum(&self) -> (checksum: u16)
        ensures
            checksum == checksum_of(*self),
    {
        proof {
            param_sum(*self);
        }
        // param2..=param5 are always zero
        let sum: u16 = self.param0() as u16 + self.param1() as u16;
        0xFFFF - sum
    }

    /// Convert a command to its `TracealyzerCommandType` wire representation
    pub fn to_wire_bytes(self) -> (bytes: [u8; 8])
        ensures
            bytes@ == wire_bytes(self),
            bytes@.len() == Self::WIRE_SIZE,
    {
        let checksum: u16 = self.checksum();
        let bytes = [
            self.param0(),
            self.param1(),
            0,
            0,
            0,
            0,
            (checksum % 256) as u8,
            (checksum / 256) as u8,
        ];
        assert(bytes@ =~= wire_bytes(self));
        bytes
    }

    /// The name of the command.
    pub fn display(&self) -> (name: &'static str)
        ensures
            name@ == (match *self {
                TrcCommand::StartTracing => "start-tracing"@,
                TrcCommand::StopTracing => "stop-tracing"@,
            }),
    {
        match self {
            TrcCommand::StartTracing => "start-tracing",
            TrcCommand::StopTracing => "stop-tracing",
        }
    }
}

/// Added to the sum of the parameters, the checksum on the wire gives 0xFFFF.
pub proof fn checksum_completes_the_sum(command: TrcCommand)
    ensures
        wire_bytes(command).len() == TrcCommand::WIRE_SIZE,
        ({
            let wire = wire_bytes(command);
            byte_sum(wire.take(6)) + wire[6] + 256 * wire[7] == 0xFFFF
        }),
{
    param_sum(command);
    assert(wire_bytes(command).take(6) =~= params(command));
}

/// The two commands differ on the wire.
pub proof fn commands_are_told_apart(a: TrcCommand, b: TrcCommand)
    requires
        wire_bytes(a) == wire_bytes(b),
    ensures
        a == b,
{
    assert(wire_bytes(a)[1] == params(a)[1]);
    assert(wire_bytes(b)[1] == params(b)[1]);
}

/// What stands where on the wire: the command that sets whether tracing is active, one to
/// start it or zero to stop it, four zeros, and what is missing to 0xFFFF when the first
/// two are added up, low byte first.
pub proof fn bytes_on_the_wire(command: TrcCommand)
    ensures
        ({
            let wire = wire_bytes(command);
            &&& wire.len() == 8
            &&& wire[0] == 1
            &&& wire[1] == 1 <==> command == TrcCommand::StartTracing
            &&& wire[1] == 0 <==> command == TrcCommand::StopTracing
            &&& forall|k: int| 2 <= k < 6 ==> #[trigger] wire[k] == 0
            &&& wire[6] + 256 * wire[7] == 0xFFFF - wire[0] - wire[1]
        }),
{
    param_sum(command);
}

} // verus!
