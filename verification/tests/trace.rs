use ctrl_flow::instruction::{InsnInfo, JumpKind};
use ctrl_flow::listener::{Chunk, EventListener};
use ctrl_flow::register::{Info, RegisterInfo};
use ctrl_flow::tracer::open_session;
use ctrl_flow::{AddressMode, Architecture, Error, Event};

#[derive(Clone, Copy)]
enum TestReg {
    R0,
    R1,
    R2,
}

impl RegisterInfo for TestReg {
    fn value(&self) -> u64 {
        match self {
            TestReg::R0 => 0,
            TestReg::R1 => 1,
            TestReg::R2 => 2,
        }
    }

    fn info(&self) -> Info<TestReg> {
        let name: &[u8] = match self {
            TestReg::R0 => b"R0",
            TestReg::R1 => b"R1",
            TestReg::R2 => b"R2",
        };
        Info::new(name.to_vec(), *self, *self, None, 2)
    }

    fn iter() -> Vec<TestReg> {
        vec![TestReg::R0, TestReg::R1, TestReg::R2]
    }
}

#[derive(Clone)]
struct TestInsn {
    bytes: Vec<u8>,
    size: Option<u16>,
    kind: Option<JumpKind>,
}

impl InsnInfo for TestInsn {
    fn size(&self) -> Option<u16> {
        self.size
    }

    fn kind(&self) -> Option<JumpKind> {
        self.kind
    }

    fn payload(&self) -> Vec<u8> {
        self.bytes.clone()
    }

    fn duplicate(&self) -> TestInsn {
        self.clone()
    }
}

#[derive(Clone)]
struct TestArch;

impl Architecture for TestArch {
    type Register = TestReg;
    type Instruction = TestInsn;
    type AddressWidth = u16;
}

fn nop() -> TestInsn {
    TestInsn { bytes: vec![0x90], size: Some(1), kind: None }
}

fn drive(listener: &mut EventListener<TestArch>) -> (Vec<u8>, Result<(), Error>) {
    let mut body = Vec::new();
    loop {
        match listener.poll_event() {
            Chunk::Quiet => {}
            Chunk::Bytes(mut b) => body.append(&mut b),
            Chunk::Last(mut b) => {
                body.append(&mut b);
                return (body, Ok(()));
            }
            Chunk::Fatal(e) => return (body, Err(e)),
        }
    }
}

const EXPECTED_HEADER: &str = "{\"info\":{\"width\":2,\"registers\":[{\"name\":\"R0\",\"register\":0,\"base\":0,\"full_register\":null,\"size\":2},{\"name\":\"R1\",\"register\":1,\"base\":1,\"full_register\":null,\"size\":2},{\"name\":\"R2\",\"register\":2,\"base\":2,\"full_register\":null,\"size\":2}],\"memory\":[[4096,0]]},\"instructions\":[";

#[test]
fn concrete_scenario() {
    let mem: Vec<(u16, u16)> = vec![(0x1000, 0x00)];
    let (tx, mut listener, header) = open_session::<TestArch>(&mem);
    assert_eq!(String::from_utf8(header).unwrap(), EXPECTED_HEADER);
    tx.send(Event::InsnStart(0x2000, nop())).unwrap();
    tx.send(Event::RegRead(TestReg::R0)).unwrap();
    tx.send(Event::MemWrite(0x1000, 0x01)).unwrap();
    tx.send(Event::InsnEnd).unwrap();
    tx.send(Event::Terminate).unwrap();
    let (body, result) = drive(&mut listener);
    assert!(result.is_ok());
    assert_eq!(
        String::from_utf8(body).unwrap(),
        "{\"addr\":8192,\"insn\":[144],\"size\":1,\"kind\":null,\"events\":[{\"RegRead\":0},{\"MemWrite\":[4096,1]}]}]}"
    );
}

#[test]
fn empty_trace() {
    let mem: Vec<(u16, u16)> = Vec::new();
    let (tx, mut listener, header) = open_session::<TestArch>(&mem);
    assert!(String::from_utf8(header.clone())
        .unwrap()
        .ends_with("],\"memory\":[]},\"instructions\":["));
    tx.send(Event::Terminate).unwrap();
    let (body, result) = drive(&mut listener);
    assert!(result.is_ok());
    assert_eq!(body, b"]}".to_vec());
}

#[test]
fn ordering_violation() {
    let mem: Vec<(u16, u16)> = Vec::new();
    let (tx, mut listener, _header) = open_session::<TestArch>(&mem);
    tx.send(Event::InsnStart(0x10, nop())).unwrap();
    tx.send(Event::InsnStart(0x20, nop())).unwrap();
    let (body, result) = drive(&mut listener);
    assert_eq!(result, Err(Error::Ordering));
    assert!(body.is_empty());
}

#[test]
fn senders_dropped() {
    let mem: Vec<(u16, u16)> = Vec::new();
    let (tx, mut listener, _header) = open_session::<TestArch>(&mem);
    tx.send(Event::InsnStart(0x10, nop())).unwrap();
    tx.send(Event::RegWrite(TestReg::R1, vec![0xaa])).unwrap();
    drop(tx);
    let (body, result) = drive(&mut listener);
    assert_eq!(result, Err(Error::SendersDropped));
    assert!(body.is_empty());
}

#[test]
fn dropped_without_any_event() {
    let mem: Vec<(u16, u16)> = Vec::new();
    let (tx, mut listener, _header) = open_session::<TestArch>(&mem);
    drop(tx);
    let (body, result) = drive(&mut listener);
    assert_eq!(result, Err(Error::SendersDropped));
    assert!(body.is_empty());
}

#[test]
fn send_after_listener_gone() {
    let mem: Vec<(u16, u16)> = Vec::new();
    let (tx, listener, _header) = open_session::<TestArch>(&mem);
    drop(listener);
    assert_eq!(tx.send(Event::Terminate), Err(Error::SendFailure));
}

#[test]
fn record_fidelity() {
    let mem: Vec<(u16, u16)> = Vec::new();
    let (tx, mut listener, _header) = open_session::<TestArch>(&mem);
    let insn = TestInsn { bytes: vec![0x0f, 0x05], size: None, kind: None };
    tx.send(Event::InsnStart(0x1234, insn)).unwrap();
    tx.send(Event::RegRead(TestReg::R2)).unwrap();
    tx.send(Event::RegWrite(TestReg::R1, vec![0xde, 0xad])).unwrap();
    tx.send(Event::MemRead(0x0042)).unwrap();
    tx.send(Event::MemWrite(0x0042, 0x0007)).unwrap();
    tx.send(Event::InsnEnd).unwrap();
    tx.send(Event::Terminate).unwrap();
    let (body, result) = drive(&mut listener);
    assert!(result.is_ok());
    assert_eq!(
        String::from_utf8(body).unwrap(),
        "{\"addr\":4660,\"insn\":[15,5],\"size\":null,\"kind\":null,\"events\":[{\"RegRead\":2},{\"RegWrite\":[1,[222,173]]},{\"MemRead\":66},{\"MemWrite\":[66,7]}]}]}"
    );
}

#[test]
fn branch_kinds() {
    let mem: Vec<(u16, u16)> = Vec::new();
    let (tx, mut listener, _header) = open_session::<TestArch>(&mem);
    let kinds = [
        JumpKind::Call,
        JumpKind::Return,
        JumpKind::Unconditional,
        JumpKind::Conditional,
    ];
    for (k, kind) in kinds.into_iter().enumerate() {
        let insn = TestInsn { bytes: vec![0xe8], size: Some(5), kind: Some(kind) };
        tx.send(Event::InsnStart(k as u16, insn)).unwrap();
        tx.send(Event::InsnEnd).unwrap();
    }
    tx.send(Event::Terminate).unwrap();
    let (body, result) = drive(&mut listener);
    assert!(result.is_ok());
    assert_eq!(
        String::from_utf8(body).unwrap(),
        "{\"addr\":0,\"insn\":[232],\"size\":5,\"kind\":\"Call\",\"events\":[]},{\"addr\":1,\"insn\":[232],\"size\":5,\"kind\":\"Return\",\"events\":[]},{\"addr\":2,\"insn\":[232],\"size\":5,\"kind\":\"Unconditional\",\"events\":[]},{\"addr\":3,\"insn\":[232],\"size\":5,\"kind\":\"Conditional\",\"events\":[]}]}"
    );
}

#[test]
fn idle_sub_events_ignored() {
    let mem: Vec<(u16, u16)> = Vec::new();
    let (tx, mut listener, _header) = open_session::<TestArch>(&mem);
    tx.send(Event::RegRead(TestReg::R0)).unwrap();
    tx.send(Event::MemRead(0x99)).unwrap();
    tx.send(Event::InsnEnd).unwrap();
    tx.send(Event::Terminate).unwrap();
    let (body, result) = drive(&mut listener);
    assert!(result.is_ok());
    assert_eq!(body, b"]}".to_vec());
}

#[test]
fn terminate_discards_open_record() {
    let mem: Vec<(u16, u16)> = Vec::new();
    let (tx, mut listener, _header) = open_session::<TestArch>(&mem);
    tx.send(Event::InsnStart(0x50, nop())).unwrap();
    tx.send(Event::RegRead(TestReg::R0)).unwrap();
    tx.send(Event::Terminate).unwrap();
    let (body, result) = drive(&mut listener);
    assert!(result.is_ok());
    assert_eq!(body, b"]}".to_vec());
}

#[test]
fn cloned_sender_feeds_same_session() {
    let mem: Vec<(u16, u16)> = Vec::new();
    let (tx, mut listener, _header) = open_session::<TestArch>(&mem);
    let tx2 = tx.duplicate();
    tx.send(Event::InsnStart(0x60, nop())).unwrap();
    drop(tx);
    tx2.send(Event::InsnEnd).unwrap();
    tx2.send(Event::Terminate).unwrap();
    let (body, result) = drive(&mut listener);
    assert!(result.is_ok());
    assert_eq!(
        String::from_utf8(body).unwrap(),
        "{\"addr\":96,\"insn\":[144],\"size\":1,\"kind\":null,\"events\":[]}]}"
    );
}

#[test]
fn interleaved_records() {
    let mem: Vec<(u16, u16)> = Vec::new();
    let (tx, mut listener, _header) = open_session::<TestArch>(&mem);
    tx.send(Event::InsnStart(0x100, nop())).unwrap();
    tx.send(Event::RegWrite(TestReg::R0, vec![1, 2])).unwrap();
    tx.send(Event::InsnEnd).unwrap();
    tx.send(Event::InsnStart(0x101, nop())).unwrap();
    tx.send(Event::MemRead(0x200)).unwrap();
    tx.send(Event::RegRead(TestReg::R2)).unwrap();
    tx.send(Event::InsnEnd).unwrap();
    tx.send(Event::Terminate).unwrap();
    let (body, result) = drive(&mut listener);
    assert!(result.is_ok());
    assert_eq!(
        String::from_utf8(body).unwrap(),
        "{\"addr\":256,\"insn\":[144],\"size\":1,\"kind\":null,\"events\":[{\"RegWrite\":[0,[1,2]]}]},{\"addr\":257,\"insn\":[144],\"size\":1,\"kind\":null,\"events\":[{\"MemRead\":512},{\"RegRead\":2}]}]}"
    );
}

#[test]
fn step_follows_transition_table() {
    let mem: Vec<(u16, u16)> = Vec::new();
    let (_tx, mut listener, _header) = open_session::<TestArch>(&mem);
    assert!(matches!(listener.step(Event::RegRead(TestReg::R1)), Chunk::Quiet));
    assert!(matches!(listener.step(Event::InsnStart(0x30, nop())), Chunk::Quiet));
    assert!(matches!(listener.step(Event::MemRead(0x40)), Chunk::Quiet));
    match listener.step(Event::InsnEnd) {
        Chunk::Bytes(b) => assert_eq!(
            String::from_utf8(b).unwrap(),
            "{\"addr\":48,\"insn\":[144],\"size\":1,\"kind\":null,\"events\":[{\"MemRead\":64}]}"
        ),
        _ => panic!(),
    }
    assert!(matches!(listener.step(Event::InsnStart(0x31, nop())), Chunk::Quiet));
    assert!(matches!(
        listener.step(Event::InsnStart(0x32, nop())),
        Chunk::Fatal(Error::Ordering)
    ));
}

#[test]
fn step_terminate_closes() {
    let mem: Vec<(u16, u16)> = Vec::new();
    let (_tx, mut listener, _header) = open_session::<TestArch>(&mem);
    match listener.step(Event::Terminate) {
        Chunk::Last(b) => assert_eq!(b, b"]}".to_vec()),
        _ => panic!(),
    }
}

#[test]
fn inner_sender_reaches_listener() {
    let mem: Vec<(u16, u16)> = Vec::new();
    let (tx, mut listener, _header) = open_session::<TestArch>(&mem);
    tx.inner_sender().send(Event::Terminate).unwrap();
    let (body, result) = drive(&mut listener);
    assert!(result.is_ok());
    assert_eq!(body, b"]}".to_vec());
}

#[test]
fn error_messages() {
    assert_eq!(
        Error::Ordering.describe(),
        "There was an attempt to send another Start effect before the previous was ended."
    );
    assert_eq!(Error::SendersDropped.describe(), "All of the effect senders were dropped.");
    assert_eq!(
        Error::SendFailure.describe(),
        "There was an issue when sending an effect to the tracer."
    );
    assert_eq!(
        Error::Serialization.describe(),
        "There was an issue serializing an effect."
    );
    assert_eq!(
        Error::IO.describe(),
        "There was an issue while creating or writing to the trace file."
    );
}

#[test]
fn address_modes() {
    assert_eq!(<u8 as AddressMode>::mode(), 1);
    assert_eq!(<u16 as AddressMode>::mode(), 2);
    assert_eq!(<u32 as AddressMode>::mode(), 4);
    assert_eq!(<u64 as AddressMode>::mode(), 8);
    assert_eq!(0xffu8.value(), 255);
    assert_eq!(0xffffu16.value(), 65535);
}
