pub mod tcp_server;
