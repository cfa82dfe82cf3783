[package]
name = "objmesh"
version = "0.1.0"
edition = "2021"
publish = false

[dependencies]
clock_ticks = "*"
glium = "*"
glutin = "*"
rand = "*"
vecmath = "*"
