//! [Digital Touch](https://support.apple.com/guide/ipod-touch/send-a-digital-touch-effect-iph3fadba219/ios)
//! messages are animated doodles, taps, fireballs, lips, heartbeats, and heartbreaks.

pub mod fireball;
pub mod heartbeat;
pub mod kiss;
pub mod models;
pub mod render;
pub mod sketch;
pub mod tap;
