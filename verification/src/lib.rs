//! The head unit side of the Android Auto protocol: everything between the bytes
//! on the USB link and the picture, the sound and the touches of the services.
pub mod aoa;
pub mod byte_order;
pub mod control_channel_packets;
pub mod encryption;
pub mod frame;
pub mod heartbeat;
pub mod packet;
pub mod packet_router;
pub mod pki;
pub mod protos;
pub mod sequences;
pub mod service;
pub mod tls;
pub mod usb;
pub mod usb_stream;
