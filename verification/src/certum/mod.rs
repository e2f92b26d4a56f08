pub mod certum8;
pub mod certum16;
pub mod certum32;
pub mod certum64;
pub mod certum128;
pub mod u_certum8;
pub mod u_certum16;
pub mod u_certum32;
pub mod u_certum64;
pub mod u_certum128;
