pub mod bvh;
pub mod pdf;
pub mod perlin;
pub mod ppm;
pub mod random;
pub mod raster;
pub mod rtw_image;
pub mod texture;
