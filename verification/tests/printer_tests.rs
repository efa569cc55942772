use print3rs_core::gcode::{GField, GValue};
use print3rs_core::printer::{DisconnectedError, Error, Printer, Socket};
use print3rs_core::serializer::SharedSerializer;

fn m1234() -> GValue {
    GValue::Named(b"M1234".to_vec())
}

fn g1234() -> GValue {
    let mut buffer = ryu::Buffer::new();
    let y = buffer.format(2.3f32);
    GValue::Record(
        b"G1234".to_vec(),
        vec![
            GField { name: b"x".to_vec(), value: GValue::Int(-1) },
            GField { name: b"y".to_vec(), value: GValue::Text(y.as_bytes().to_vec()) },
        ],
    )
}

fn make_socket(
    capacity: usize,
) -> (Socket, tokio::sync::mpsc::Receiver<Vec<u8>>, tokio::sync::broadcast::Sender<Vec<u8>>) {
    let (tx, rx) = tokio::sync::mpsc::channel::<Vec<u8>>(capacity);
    let (btx, brx) = tokio::sync::broadcast::channel::<Vec<u8>>(64);
    let socket = Socket::assemble(tx, SharedSerializer::new(), brx);
    (socket, rx, btx)
}

#[test]
fn send_unsequenced_queues_exact_bytes() {
    let runtime = tokio::runtime::Builder::new_current_thread().build().unwrap();
    runtime.block_on(async {
        let (socket, mut rx, _btx) = make_socket(8);
        socket.send_unsequenced(&m1234()).unwrap();
        assert_eq!(rx.recv().await.unwrap(), b"M1234\n".to_vec());
    });
}

#[test]
fn send_raw_queues_verbatim() {
    let runtime = tokio::runtime::Builder::new_current_thread().build().unwrap();
    runtime.block_on(async {
        let (socket, mut rx, _btx) = make_socket(8);
        socket.send_raw(b"whatever bytes, no newline").unwrap();
        assert_eq!(rx.recv().await.unwrap(), b"whatever bytes, no newline".to_vec());
    });
}

#[test]
fn send_reports_full_and_closed_queues() {
    let runtime = tokio::runtime::Builder::new_current_thread().build().unwrap();
    runtime.block_on(async {
        let (socket, rx, _btx) = make_socket(1);
        assert_eq!(socket.send_unsequenced(&m1234()), Ok(()));
        assert_eq!(socket.send_unsequenced(&m1234()), Err(Error::QueueFull));
        drop(rx);
        assert_eq!(socket.send_unsequenced(&m1234()), Err(Error::Disconnected));
    });
}

#[test]
fn prepare_send_claims_and_frames_one_number() {
    let runtime = tokio::runtime::Builder::new_current_thread().build().unwrap();
    runtime.block_on(async {
        let (socket, _rx, btx) = make_socket(8);
        let (sequence, bytes, mut watch) = socket.prepare_send(&g1234());
        assert_eq!(sequence, 1);
        assert_eq!(bytes, b"N1G1234X-1Y2.3*14\n".to_vec());
        // the subscription opened by prepare_send sees lines published afterwards
        btx.send(b"ok 1\n".to_vec()).unwrap();
        assert_eq!(watch.recv().await.unwrap(), b"ok 1\n".to_vec());
        // a clone shares the counter
        let clone = socket.clone();
        let (sequence, bytes, _watch) = clone.prepare_send(&g1234());
        assert_eq!(sequence, 2);
        assert_eq!(bytes, b"N2G1234X-1Y2.3*13\n".to_vec());
    });
}

#[test]
fn broadcast_reaches_every_subscriber() {
    let runtime = tokio::runtime::Builder::new_current_thread().build().unwrap();
    runtime.block_on(async {
        let (socket, _rx, btx) = make_socket(8);
        let mut first = socket.subscribe_lines().unwrap();
        let mut second = socket.subscribe_lines().unwrap();
        btx.send(b"T:210 /210\n".to_vec()).unwrap();
        btx.send(b"ok\n".to_vec()).unwrap();
        assert_eq!(first.recv().await.unwrap(), b"T:210 /210\n".to_vec());
        assert_eq!(first.recv().await.unwrap(), b"ok\n".to_vec());
        assert_eq!(second.recv().await.unwrap(), b"T:210 /210\n".to_vec());
        assert_eq!(second.recv().await.unwrap(), b"ok\n".to_vec());
    });
}

#[test]
fn cloned_socket_sends_into_the_same_queue() {
    let runtime = tokio::runtime::Builder::new_current_thread().build().unwrap();
    runtime.block_on(async {
        let (socket, mut rx, _btx) = make_socket(8);
        let clone = socket.clone();
        clone.send_unsequenced(&m1234()).unwrap();
        socket.send_raw(b"G28\n").unwrap();
        assert_eq!(rx.recv().await.unwrap(), b"M1234\n".to_vec());
        assert_eq!(rx.recv().await.unwrap(), b"G28\n".to_vec());
    });
}

#[test]
fn set_sequence_through_the_socket() {
    let runtime = tokio::runtime::Builder::new_current_thread().build().unwrap();
    runtime.block_on(async {
        let (socket, _rx, _btx) = make_socket(8);
        socket.set_sequence(42);
        let (sequence, bytes, _watch) = socket.prepare_send(&m1234());
        assert_eq!(sequence, 42);
        assert!(bytes.starts_with(b"N42M1234*"));
    });
}

#[test]
fn printer_state_machine() {
    let runtime = tokio::runtime::Builder::new_current_thread().build().unwrap();
    runtime.block_on(async {
        let mut printer = Printer::default();
        assert!(!printer.is_connected());
        assert!(printer.socket().is_err());
        assert!(printer.background_task().is_none());
        assert_eq!(printer.send_unsequenced(&m1234()), Err(Error::Disconnected));
        assert_eq!(printer.send_raw(b"G28\n"), Err(Error::Disconnected));
        assert!(matches!(printer.subscribe_lines(), Err(DisconnectedError::Disconnected)));

        let (socket, mut rx, _btx) = make_socket(8);
        let task = tokio::spawn(async {});
        printer.connect(socket, task);
        assert!(printer.is_connected());
        assert!(printer.background_task().is_some());
        printer.send_unsequenced(&m1234()).unwrap();
        assert_eq!(rx.recv().await.unwrap(), b"M1234\n".to_vec());
        assert!(printer.subscribe_lines().is_ok());
        assert!(printer.socket_mut().is_ok());
        let (sequence, bytes, _watch) = printer.prepare_send(&g1234()).unwrap();
        assert_eq!(sequence, 1);
        assert_eq!(bytes, b"N1G1234X-1Y2.3*14\n".to_vec());

        printer.disconnect();
        assert!(!printer.is_connected());
        assert!(printer.socket().is_err());
    });
}

#[test]
fn dropping_a_printer_aborts_its_task() {
    let runtime = tokio::runtime::Builder::new_current_thread().build().unwrap();
    runtime.block_on(async {
        let (socket, _rx, _btx) = make_socket(8);
        let task = tokio::spawn(async {
            loop {
                tokio::task::yield_now().await;
            }
        });
        let watcher = task.abort_handle();
        let printer = Printer::new(socket, task);
        assert!(printer.is_connected());
        drop(printer);
        for _ in 0..100 {
            if watcher.is_finished() {
                break;
            }
            tokio::task::yield_now().await;
        }
        assert!(watcher.is_finished());
    });
}
