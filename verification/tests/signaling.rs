use rtp_pipeline::signaling::WebSocketSignalerError;

#[test]
fn signaler_error_descriptions() {
    assert_eq!(
        WebSocketSignalerError::Tungstenite.err_str(),
        "Encountered an error in the underlying WebSocket"
    );
    assert_eq!(
        WebSocketSignalerError::Serde.err_str(),
        "Failed to deserialize the message"
    );
    assert_eq!(
        WebSocketSignalerError::StdIo.err_str(),
        "Failed to initialize TCP socket"
    );
    assert_eq!(
        WebSocketSignalerError::Eof.err_str(),
        "WebSocket connection has been closed"
    );
}
