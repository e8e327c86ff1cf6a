[package]
name = "raytracer"
version = "0.1.0"
edition = "2021"
publish = false

[dependencies]
rand = "0.8"
rayon = "1"
noise = "0.8"
nom = "7"
png = "0.17"
tobj = "3"
indicatif = "0.17"
