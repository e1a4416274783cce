use qltp_transport::connection::TransportConnection;
use qltp_transport::error::Error;

struct Loopback {
    queue: Vec<Vec<u8>>,
    open: bool,
}

impl TransportConnection for Loopback {
    fn send(&mut self, data: &[u8]) -> Result<usize, Error> {
        if !self.open {
            return Err(Error::NoConnection);
        }
        self.queue.push(data.to_vec());
        Ok(data.len())
    }

    fn recv(&mut self, buffer: &mut [u8]) -> Result<usize, Error> {
        if self.queue.is_empty() {
            return Err(Error::ReceiveFailed("empty".to_string()));
        }
        let m = self.queue.remove(0);
        buffer[..m.len()].copy_from_slice(&m);
        Ok(m.len())
    }

    fn close(&mut self) -> Result<(), Error> {
        self.open = false;
        Ok(())
    }

    fn is_open(&self) -> bool {
        self.open
    }
}

#[test]
fn connection_trait_objects_send_and_receive() {
    let mut c = Loopback { queue: Vec::new(), open: true };
    let conn: &mut dyn TransportConnection = &mut c;
    assert_eq!(conn.send(b"hello").unwrap(), 5);
    let mut buf = [0u8; 16];
    assert_eq!(conn.recv(&mut buf).unwrap(), 5);
    assert_eq!(&buf[..5], b"hello");
    conn.close().unwrap();
    assert!(!conn.is_open());
    assert_eq!(conn.send(b"x"), Err(Error::NoConnection));
}
